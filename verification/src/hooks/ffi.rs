//! How the game lays out what the hooks look at.
//!
//! Each type can be read from the bytes of the game's own structure. Offsets are in
//! bytes from the start of the structure.

use vstd::prelude::*;

use crate::bytes::{long_at, read_u32, read_u64, signed, to_signed, word_at};
use crate::float32::Float32;

verus! {

/// The word at `at`; zero where there is none.
pub open spec fn word(bytes: Seq<u8>, at: int) -> u32 {
    match word_at(bytes, at) {
        Some(word) => word,
        None => 0,
    }
}

/// The word at `at`, which lies within `bytes`.
fn word_of(bytes: &[u8], at: usize) -> (result: u32)
    ensures
        result == word(bytes@, at as int),
{
    match read_u32(bytes, at) {
        Some(word) => word,
        None => 0,
    }
}

pub const DAMAGE_OFFSET: usize = 0xD4;

pub const DAMAGE_FLAGS_OFFSET: usize = 0xE8;

pub const DAMAGE_STUN_VALUE_OFFSET: usize = 0xF4;

pub const DAMAGE_ACTION_ID_OFFSET: usize = 0x16C;

pub const DAMAGE_CAP_OFFSET: usize = 0x2BC;

pub const DAMAGE_INSTANCE_SIZE: usize = 0x2C0;

/// A hit, as the game hands it to the function that applies it.
#[derive(Clone, Copy, Debug, PartialEq, Eq, Structural)]
pub struct DamageInstance {
    pub damage: i32,
    pub flags: u64,
    pub stun_value: Float32,
    pub action_id: u32,
    pub damage_cap: i32,
}

/// The hit that `bytes` hold.
pub open spec fn damage_instance_in(bytes: Seq<u8>) -> Option<DamageInstance> {
    if bytes.len() < DAMAGE_INSTANCE_SIZE {
        None
    } else {
        Some(
            DamageInstance {
                damage: signed(word(bytes, DAMAGE_OFFSET as int)),
                flags: long_at(bytes, DAMAGE_FLAGS_OFFSET as int)->0,
                stun_value: Float32 { bits: word(bytes, DAMAGE_STUN_VALUE_OFFSET as int) },
                action_id: word(bytes, DAMAGE_ACTION_ID_OFFSET as int),
                damage_cap: signed(word(bytes, DAMAGE_CAP_OFFSET as int)),
            },
        )
    }
}

impl DamageInstance {
    /// The hit that `bytes` hold, if there are enough of them.
    pub fn from_bytes(bytes: &[u8]) -> (instance: Option<Self>)
        ensures
            instance == damage_instance_in(bytes@),
    {
        if bytes.len() < DAMAGE_INSTANCE_SIZE {
            return None;
        }
        let flags: u64 = match read_u64(bytes, DAMAGE_FLAGS_OFFSET) {
            Some(flags) => flags,
            None => 0,
        };
        Some(
            DamageInstance {
                damage: to_signed(word_of(bytes, DAMAGE_OFFSET)),
                flags,
                stun_value: Float32::from_bits(word_of(bytes, DAMAGE_STUN_VALUE_OFFSET)),
                action_id: word_of(bytes, DAMAGE_ACTION_ID_OFFSET),
                damage_cap: to_signed(word_of(bytes, DAMAGE_CAP_OFFSET)),
            },
        )
    }
}

pub const QUEST_STATE_ELAPSED_TIME_OFFSET: usize = 0x64C;

pub const QUEST_STATE_SIZE: usize = 0x650;

/// The quest in progress.
#[derive(Clone, Copy, Debug, PartialEq, Eq, Structural)]
pub struct QuestState {
    pub quest_id: u32,
    pub elapsed_time: u32,
}

/// The quest that `bytes` hold.
pub open spec fn quest_state_in(bytes: Seq<u8>) -> Option<QuestState> {
    if bytes.len() < QUEST_STATE_SIZE {
        None
    } else {
        Some(
            QuestState {
                quest_id: word(bytes, 0),
                elapsed_time: word(bytes, QUEST_STATE_ELAPSED_TIME_OFFSET as int),
            },
        )
    }
}

impl QuestState {
    /// The quest that `bytes` hold, if there are enough of them.
    pub fn from_bytes(bytes: &[u8]) -> (state: Option<Self>)
        ensures
            state == quest_state_in(bytes@),
    {
        if bytes.len() < QUEST_STATE_SIZE {
            return None;
        }
        Some(
            QuestState {
                quest_id: word_of(bytes, 0),
                elapsed_time: word_of(bytes, QUEST_STATE_ELAPSED_TIME_OFFSET),
            },
        )
    }
}

/// How many sigils a character can have equipped.
pub const SIGIL_COUNT: usize = 12;

pub const SIGIL_SIZE: usize = 0x24;

/// An equipped sigil.
#[derive(Clone, Copy, Debug, PartialEq, Eq, Structural)]
pub struct SigilEntry {
    pub first_trait_id: u32,
    pub first_trait_level: u32,
    pub second_trait_id: u32,
    pub second_trait_level: u32,
    pub sigil_id: u32,
    pub equipped_character: u32,
    pub sigil_level: u32,
    pub acquisition_count: u32,
    pub notification_enum: u32,
}

/// The sigil at `at`.
pub open spec fn sigil_entry_at(bytes: Seq<u8>, at: int) -> SigilEntry {
    SigilEntry {
        first_trait_id: word(bytes, at),
        first_trait_level: word(bytes, at + 4),
        second_trait_id: word(bytes, at + 8),
        second_trait_level: word(bytes, at + 12),
        sigil_id: word(bytes, at + 16),
        equipped_character: word(bytes, at + 20),
        sigil_level: word(bytes, at + 24),
        acquisition_count: word(bytes, at + 28),
        notification_enum: word(bytes, at + 32),
    }
}

impl SigilEntry {
    /// The sigil at `at`.
    fn from_bytes_at(bytes: &[u8], at: usize) -> (entry: Self)
        requires
            at + SIGIL_SIZE <= usize::MAX,
        ensures
            entry == sigil_entry_at(bytes@, at as int),
    {
        SigilEntry {
            first_trait_id: word_of(bytes, at),
            first_trait_level: word_of(bytes, at + 4),
            second_trait_id: word_of(bytes, at + 8),
            second_trait_level: word_of(bytes, at + 12),
            sigil_id: word_of(bytes, at + 16),
            equipped_character: word_of(bytes, at + 20),
            sigil_level: word_of(bytes, at + 24),
            acquisition_count: word_of(bytes, at + 28),
            notification_enum: word_of(bytes, at + 32),
        }
    }
}

pub const SIGIL_LIST_IS_ONLINE_OFFSET: usize = 0x1C8;

pub const CHARACTER_NAME_OFFSET: usize = 0x1E8;

pub const DISPLAY_NAME_OFFSET: usize = 0x208;

pub const PARTY_INDEX_OFFSET: usize = 0x22C;

pub const SIGIL_LIST_SIZE: usize = 0x230;

/// The sigils of a player, and who the player is.
#[derive(Debug)]
pub struct SigilList {
    pub sigils: [SigilEntry; SIGIL_COUNT],
    /// Zero for a local player, one for an online player.
    pub is_online: u32,
    pub character_name: VBuffer,
    pub display_name: VBuffer,
    pub party_index: u32,
}

impl SigilList {
    /// Whether this is what `bytes` hold.
    pub open spec fn read_from(self, bytes: Seq<u8>) -> bool {
        &&& forall|i: int|
            0 <= i < SIGIL_COUNT ==> #[trigger] self.sigils@[i] == sigil_entry_at(
                bytes,
                i * SIGIL_SIZE,
            )
        &&& self.is_online == word(bytes, SIGIL_LIST_IS_ONLINE_OFFSET as int)
        &&& self.character_name == vbuffer_at(bytes, CHARACTER_NAME_OFFSET as int)
        &&& self.display_name == vbuffer_at(bytes, DISPLAY_NAME_OFFSET as int)
        &&& self.party_index == word(bytes, PARTY_INDEX_OFFSET as int)
    }

    /// The list that `bytes` hold, if there are enough of them.
    pub fn from_bytes(bytes: &[u8]) -> (list: Option<Self>)
        ensures
            match list {
                Some(list) => bytes@.len() >= SIGIL_LIST_SIZE && list.read_from(bytes@),
                None => bytes@.len() < SIGIL_LIST_SIZE,
            },
    {
        if bytes.len() < SIGIL_LIST_SIZE {
            return None;
        }
        Some(
            SigilList {
                sigils: [
                    SigilEntry::from_bytes_at(bytes, 0x000),
                    SigilEntry::from_bytes_at(bytes, 0x024),
                    SigilEntry::from_bytes_at(bytes, 0x048),
                    SigilEntry::from_bytes_at(bytes, 0x06C),
                    SigilEntry::from_bytes_at(bytes, 0x090),
                    SigilEntry::from_bytes_at(bytes, 0x0B4),
                    SigilEntry::from_bytes_at(bytes, 0x0D8),
                    SigilEntry::from_bytes_at(bytes, 0x0FC),
                    SigilEntry::from_bytes_at(bytes, 0x120),
                    SigilEntry::from_bytes_at(bytes, 0x144),
                    SigilEntry::from_bytes_at(bytes, 0x168),
                    SigilEntry::from_bytes_at(bytes, 0x18C),
                ],
                is_online: word_of(bytes, SIGIL_LIST_IS_ONLINE_OFFSET),
                character_name: VBuffer::from_bytes_at(bytes, CHARACTER_NAME_OFFSET),
                display_name: VBuffer::from_bytes_at(bytes, DISPLAY_NAME_OFFSET),
                party_index: word_of(bytes, PARTY_INDEX_OFFSET),
            },
        )
    }
}

pub const PLAYER_STATS_SIZE: usize = 0x1C;

/// The stats of a player.
#[derive(Clone, Copy, Debug, PartialEq, Eq, Structural)]
pub struct PlayerStats {
    pub level: u32,
    pub total_health: u32,
    pub total_attack: u32,
    pub unk_0c: u32,
    pub stun_power: Float32,
    pub critical_rate: Float32,
    pub total_power: u32,
}

/// The stats that `bytes` hold.
pub open spec fn player_stats_in(bytes: Seq<u8>) -> Option<PlayerStats> {
    if bytes.len() < PLAYER_STATS_SIZE {
        None
    } else {
        Some(
            PlayerStats {
                level: word(bytes, 0x00),
                total_health: word(bytes, 0x04),
                total_attack: word(bytes, 0x08),
                unk_0c: word(bytes, 0x0C),
                stun_power: Float32 { bits: word(bytes, 0x10) },
                critical_rate: Float32 { bits: word(bytes, 0x14) },
                total_power: word(bytes, 0x18),
            },
        )
    }
}

impl PlayerStats {
    /// The stats that `bytes` hold, if there are enough of them.
    pub fn from_bytes(bytes: &[u8]) -> (stats: Option<Self>)
        ensures
            stats == player_stats_in(bytes@),
    {
        if bytes.len() < PLAYER_STATS_SIZE {
            return None;
        }
        Some(
            PlayerStats {
                level: word_of(bytes, 0x00),
                total_health: word_of(bytes, 0x04),
                total_attack: word_of(bytes, 0x08),
                unk_0c: word_of(bytes, 0x0C),
                stun_power: Float32::from_bits(word_of(bytes, 0x10)),
                critical_rate: Float32::from_bits(word_of(bytes, 0x14)),
                total_power: word_of(bytes, 0x18),
            },
        )
    }
}

pub const WEAPON_ID_OFFSET: usize = 0x04;

pub const WEAPON_WRIGHTSTONE_ID_OFFSET: usize = 0x38;

pub const WEAPON_LEVEL_OFFSET: usize = 0x58;

pub const WEAPON_HP_OFFSET: usize = 0x5C;

pub const WEAPON_ATTACK_OFFSET: usize = 0x60;

pub const WEAPON_INFO_SIZE: usize = 0x64;

/// A weapon and what is on it.
#[derive(Clone, Copy, Debug, PartialEq, Eq, Structural)]
pub struct WeaponInfo {
    /// Weapon ID hash.
    pub weapon_id: u32,
    pub weapon_ap_tree: u32,
    pub weapon_exp: u32,
    /// How many uncap stars the weapon has.
    pub star_level: u32,
    /// Number of plus marks on the weapon.
    pub plus_marks: u32,
    /// Awakening level.
    pub awakening_level: u32,
    /// First trait ID.
    pub trait_1_id: u32,
    /// First trait level.
    pub trait_1_level: u32,
    /// Second trait ID.
    pub trait_2_id: u32,
    /// Second trait level.
    pub trait_2_level: u32,
    /// Third trait ID.
    pub trait_3_id: u32,
    /// Third trait level.
    pub trait_3_level: u32,
    /// Wrightstone used on the weapon.
    pub wrightstone_id: u32,
    /// Current weapon level.
    pub weapon_level: u32,
    /// HP of the weapon, before plus marks.
    pub weapon_hp: u32,
    /// Attack of the weapon, before plus marks.
    pub weapon_attack: u32,
}

/// The weapon that `bytes` hold.
pub open spec fn weapon_info_in(bytes: Seq<u8>) -> Option<WeaponInfo> {
    if bytes.len() < WEAPON_INFO_SIZE {
        None
    } else {
        Some(
            WeaponInfo {
                weapon_id: word(bytes, WEAPON_ID_OFFSET as int),
                weapon_ap_tree: word(bytes, 0x08),
                weapon_exp: word(bytes, 0x10),
                star_level: word(bytes, 0x14),
                plus_marks: word(bytes, 0x18),
                awakening_level: word(bytes, 0x1C),
                trait_1_id: word(bytes, 0x20),
                trait_1_level: word(bytes, 0x24),
                trait_2_id: word(bytes, 0x28),
                trait_2_level: word(bytes, 0x2C),
                trait_3_id: word(bytes, 0x30),
                trait_3_level: word(bytes, 0x34),
                wrightstone_id: word(bytes, WEAPON_WRIGHTSTONE_ID_OFFSET as int),
                weapon_level: word(bytes, WEAPON_LEVEL_OFFSET as int),
                weapon_hp: word(bytes, WEAPON_HP_OFFSET as int),
                weapon_attack: word(bytes, WEAPON_ATTACK_OFFSET as int),
            },
        )
    }
}

impl WeaponInfo {
    /// The weapon that `bytes` hold, if there are enough of them.
    pub fn from_bytes(bytes: &[u8]) -> (info: Option<Self>)
        ensures
            info == weapon_info_in(bytes@),
    {
        if bytes.len() < WEAPON_INFO_SIZE {
            return None;
        }
        Some(
            WeaponInfo {
                weapon_id: word_of(bytes, WEAPON_ID_OFFSET),
                weapon_ap_tree: word_of(bytes, 0x08),
                weapon_exp: word_of(bytes, 0x10),
                star_level: word_of(bytes, 0x14),
                plus_marks: word_of(bytes, 0x18),
                awakening_level: word_of(bytes, 0x1C),
                trait_1_id: word_of(bytes, 0x20),
                trait_1_level: word_of(bytes, 0x24),
                trait_2_id: word_of(bytes, 0x28),
                trait_2_level: word_of(bytes, 0x2C),
                trait_3_id: word_of(bytes, 0x30),
                trait_3_level: word_of(bytes, 0x34),
                wrightstone_id: word_of(bytes, WEAPON_WRIGHTSTONE_ID_OFFSET),
                weapon_level: word_of(bytes, WEAPON_LEVEL_OFFSET),
                weapon_hp: word_of(bytes, WEAPON_HP_OFFSET),
                weapon_attack: word_of(bytes, WEAPON_ATTACK_OFFSET),
            },
        )
    }
}

/// How many overmasteries a character can have.
pub const OVERMASTERY_COUNT: usize = 4;

pub const OVERMASTERY_SIZE: usize = 0x10;

/// One overmastery.
#[derive(Clone, Copy, Debug, PartialEq, Eq, Structural)]
pub struct Overmastery {
    /// What the overmastery is about.
    pub id: u32,
    /// Flags.
    pub flags: u32,
    pub unk_08: u32,
    /// Value of the overmastery.
    pub value: Float32,
}

/// The overmastery at `at`.
pub open spec fn overmastery_at(bytes: Seq<u8>, at: int) -> Overmastery {
    Overmastery {
        id: word(bytes, at),
        flags: word(bytes, at + 4),
        unk_08: word(bytes, at + 8),
        value: Float32 { bits: word(bytes, at + 12) },
    }
}

impl Overmastery {
    /// The overmastery at `at`.
    fn from_bytes_at(bytes: &[u8], at: usize) -> (entry: Self)
        requires
            at + OVERMASTERY_SIZE <= usize::MAX,
        ensures
            entry == overmastery_at(bytes@, at as int),
    {
        Overmastery {
            id: word_of(bytes, at),
            flags: word_of(bytes, at + 4),
            unk_08: word_of(bytes, at + 8),
            value: Float32::from_bits(word_of(bytes, at + 12)),
        }
    }
}

/// The overmasteries of a character.
#[derive(Clone, Copy, Debug)]
pub struct Overmasteries {
    pub stats: [Overmastery; OVERMASTERY_COUNT],
}

impl Overmasteries {
    /// The overmasteries that `bytes` hold, if there are enough of them.
    pub fn from_bytes(bytes: &[u8]) -> (entries: Option<Self>)
        ensures
            match entries {
                Some(entries) => bytes@.len() >= OVERMASTERY_COUNT * OVERMASTERY_SIZE && forall|i: int|
                    0 <= i < OVERMASTERY_COUNT ==> #[trigger] entries.stats@[i] == overmastery_at(
                        bytes@,
                        i * OVERMASTERY_SIZE,
                    ),
                None => bytes@.len() < OVERMASTERY_COUNT * OVERMASTERY_SIZE,
            },
    {
        if bytes.len() < OVERMASTERY_COUNT * OVERMASTERY_SIZE {
            return None;
        }
        Some(
            Overmasteries {
                stats: [
                    Overmastery::from_bytes_at(bytes, 0x00),
                    Overmastery::from_bytes_at(bytes, 0x10),
                    Overmastery::from_bytes_at(bytes, 0x20),
                    Overmastery::from_bytes_at(bytes, 0x30),
                ],
            },
        )
    }
}

pub const VBUFFER_USED_SIZE_OFFSET: usize = 0x10;

pub const VBUFFER_MAX_SIZE_OFFSET: usize = 0x18;

pub const VBUFFER_SIZE: usize = 0x20;

/// The largest buffer that holds its bytes itself.
pub const VBUFFER_INLINE_CAPACITY: u64 = 0x0F;

/// The head of a text buffer. Its first bytes are the text, or where the text is.
#[derive(Clone, Copy, Debug, PartialEq, Eq, Structural)]
pub struct VBuffer {
    pub low: u64,
    pub high: u64,
    pub used_size: u64,
    pub max_size: u64,
}

/// The 64-bit word at `at`; zero where there is none.
pub open spec fn long(bytes: Seq<u8>, at: int) -> u64 {
    match long_at(bytes, at) {
        Some(long) => long,
        None => 0,
    }
}

/// The text buffer at `at`.
pub open spec fn vbuffer_at(bytes: Seq<u8>, at: int) -> VBuffer {
    VBuffer {
        low: long(bytes, at),
        high: long(bytes, at + 8),
        used_size: long(bytes, at + VBUFFER_USED_SIZE_OFFSET),
        max_size: long(bytes, at + VBUFFER_MAX_SIZE_OFFSET),
    }
}

/// Where the text of a buffer is.
#[derive(Clone, Copy, Debug, PartialEq, Eq, Structural)]
pub enum TextPlace {
    /// At the start of the buffer itself.
    Inline,
    /// At an address.
    At(u64),
}

impl VBuffer {
    /// Where the text is: a buffer that can hold more than its own head has it elsewhere.
    pub open spec fn place(self) -> TextPlace {
        if self.max_size > VBUFFER_INLINE_CAPACITY {
            TextPlace::At(self.low)
        } else {
            TextPlace::Inline
        }
    }

    /// The text buffer at `at`.
    fn from_bytes_at(bytes: &[u8], at: usize) -> (buffer: Self)
        requires
            at + VBUFFER_SIZE <= usize::MAX,
        ensures
            buffer == vbuffer_at(bytes@, at as int),
    {
        VBuffer {
            low: long_of(bytes, at),
            high: long_of(bytes, at + 8),
            used_size: long_of(bytes, at + VBUFFER_USED_SIZE_OFFSET),
            max_size: long_of(bytes, at + VBUFFER_MAX_SIZE_OFFSET),
        }
    }

    /// The text buffer that `bytes` hold, if there are enough of them.
    pub fn from_bytes(bytes: &[u8]) -> (buffer: Option<Self>)
        ensures
            buffer == (if bytes@.len() < VBUFFER_SIZE {
                None
            } else {
                Some(vbuffer_at(bytes@, 0))
            }),
    {
        if bytes.len() < VBUFFER_SIZE {
            return None;
        }
        Some(Self::from_bytes_at(bytes, 0))
    }

    /// Where the text is.
    pub fn ptr(&self) -> (place: TextPlace)
        ensures
            place == self.place(),
    {
        if self.max_size > VBUFFER_INLINE_CAPACITY {
            TextPlace::At(self.low)
        } else {
            TextPlace::Inline
        }
    }
}

/// The 64-bit word at `at`; zero where there is none.
fn long_of(bytes: &[u8], at: usize) -> (result: u64)
    ensures
        result == long(bytes@, at as int),
{
    match read_u64(bytes, at) {
        Some(long) => long,
        None => 0,
    }
}

} // verus!
