//! Playable characters and enemies, told apart by the hashes the game uses for them.

use vstd::prelude::*;

verus! {

/// The actor type of Id.
pub const ID_ACTOR_TYPE: u32 = 0x8056_ABCD;

/// The actor type of Id's transformation.
pub const ID_TRANSFORMATION_ACTOR_TYPE: u32 = 0xF575_5C0E;

/// A playable character. `Pl2000` is the transformation of `Pl1900`.
#[derive(Clone, Copy, Debug, PartialEq, Eq, Structural)]
pub enum CharacterType {
    Pl0000,
    Pl0100,
    Pl0200,
    Pl0300,
    Pl0400,
    Pl0500,
    Pl0600,
    Pl0700,
    Pl0800,
    Pl0900,
    Pl1000,
    Pl1100,
    Pl1200,
    Pl1300,
    Pl1400,
    Pl1500,
    Pl1600,
    Pl1700,
    Pl1800,
    Pl1900,
    Pl2000,
    Pl2100,
    Pl2200,
    Pl2300,
    Pl2400,
    Pl2500,
    Pl2600,
    Pl2700,
    Pl2800,
    Pl2900,
    /// Not a playable character: an enemy, a summon or an object.
    Unknown(u32),
}

/// The character that a type hash stands for.
pub open spec fn character_of(hash: u32) -> CharacterType {
    match hash {
        0x26A4_848A => CharacterType::Pl0000,
        0x9498_420D => CharacterType::Pl0100,
        0x34D4_FD8F => CharacterType::Pl0200,
        0xF8D7_3D33 => CharacterType::Pl0300,
        0x7B59_34AD => CharacterType::Pl0400,
        0x443D_46BB => CharacterType::Pl0500,
        0xA9D6_569E => CharacterType::Pl0600,
        0xFBA6_615D => CharacterType::Pl0700,
        0x63A7_C3F0 => CharacterType::Pl0800,
        0xF96A_90C2 => CharacterType::Pl0900,
        0x28AC_1108 => CharacterType::Pl1000,
        0x94E2_514E => CharacterType::Pl1100,
        0x2B4A_A114 => CharacterType::Pl1200,
        0xC97F_3365 => CharacterType::Pl1300,
        0x601A_A977 => CharacterType::Pl1400,
        0xBCC2_38DE => CharacterType::Pl1500,
        0xC315_5079 => CharacterType::Pl1600,
        0xD16C_FBDE => CharacterType::Pl1700,
        0x6FDD_6932 => CharacterType::Pl1800,
        0x8056_ABCD => CharacterType::Pl1900,
        0xF575_5C0E => CharacterType::Pl2000,
        0x9C89_A455 => CharacterType::Pl2100,
        0x59DB_0CD9 => CharacterType::Pl2200,
        0xDA5A_8E25 => CharacterType::Pl2300,
        0x4C71_4F77 => CharacterType::Pl2400,
        0xE330_418F => CharacterType::Pl2500,
        0xE3D1_BE26 => CharacterType::Pl2600,
        0x9141_8145 => CharacterType::Pl2700,
        0x48AD_DA36 => CharacterType::Pl2800,
        0x0A58_FB4D => CharacterType::Pl2900,
        _ => CharacterType::Unknown(hash),
    }
}

impl CharacterType {
    /// The character that `hash` stands for.
    pub fn from_hash(hash: u32) -> (character: CharacterType)
        ensures
            character == character_of(hash),
    {
        match hash {
            0x26A4_848A => CharacterType::Pl0000,
            0x9498_420D => CharacterType::Pl0100,
            0x34D4_FD8F => CharacterType::Pl0200,
            0xF8D7_3D33 => CharacterType::Pl0300,
            0x7B59_34AD => CharacterType::Pl0400,
            0x443D_46BB => CharacterType::Pl0500,
            0xA9D6_569E => CharacterType::Pl0600,
            0xFBA6_615D => CharacterType::Pl0700,
            0x63A7_C3F0 => CharacterType::Pl0800,
            0xF96A_90C2 => CharacterType::Pl0900,
            0x28AC_1108 => CharacterType::Pl1000,
            0x94E2_514E => CharacterType::Pl1100,
            0x2B4A_A114 => CharacterType::Pl1200,
            0xC97F_3365 => CharacterType::Pl1300,
            0x601A_A977 => CharacterType::Pl1400,
            0xBCC2_38DE => CharacterType::Pl1500,
            0xC315_5079 => CharacterType::Pl1600,
            0xD16C_FBDE => CharacterType::Pl1700,
            0x6FDD_6932 => CharacterType::Pl1800,
            0x8056_ABCD => CharacterType::Pl1900,
            0xF575_5C0E => CharacterType::Pl2000,
            0x9C89_A455 => CharacterType::Pl2100,
            0x59DB_0CD9 => CharacterType::Pl2200,
            0xDA5A_8E25 => CharacterType::Pl2300,
            0x4C71_4F77 => CharacterType::Pl2400,
            0xE330_418F => CharacterType::Pl2500,
            0xE3D1_BE26 => CharacterType::Pl2600,
            0x9141_8145 => CharacterType::Pl2700,
            0x48AD_DA36 => CharacterType::Pl2800,
            0x0A58_FB4D => CharacterType::Pl2900,
            _ => CharacterType::Unknown(hash),
        }
    }

    /// Whether this is none of the playable characters.
    pub fn is_unknown(self) -> (unknown: bool)
        ensures
            unknown == (self is Unknown),
    {
        match self {
            CharacterType::Unknown(_) => true,
            _ => false,
        }
    }
}

/// An enemy, told apart by its type hash.
#[derive(Clone, Copy, Debug, PartialEq, Eq, Structural)]
pub struct EnemyType {
    pub hash: u32,
}

impl EnemyType {
    /// The enemy that `hash` stands for.
    pub fn from_hash(hash: u32) -> (enemy: EnemyType)
        ensures
            enemy == (EnemyType { hash }),
    {
        EnemyType { hash }
    }
}

} // verus!
