//! A combat log for Granblue Fantasy: Relink.
//!
//! The library decides what is made of the calls that the game makes (`hooks`), keeps the
//! log of an encounter and works its state out (`parser`), and reads what the game has
//! saved of the party (`master_traits`). Every function states what it does in its
//! contract; what holds of several functions together is stated by the functions whose
//! names begin with `law`.

pub mod blob;
pub mod bytes;
pub mod cap_detection;
pub mod clock;
pub mod constants;
pub mod derived;
pub mod double;
pub mod encounter;
pub mod float32;
pub mod hooks;
pub mod keys;
pub mod master_traits;
pub mod parser;
pub mod peaks;
pub mod player_state;
pub mod protocol;
pub mod save_file;
