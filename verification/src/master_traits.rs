//! What the saved game tells of the active party: master traits, weapons and sigils.
//!
//! A save file holds units among other data, each at an offset that is a multiple of
//! four. A unit is a header of four words (its type, its id, the number four, and how
//! many values follow) and that many words. Where two units have the same type and id
//! the one that stands later counts.

use std::collections::HashMap;
use vstd::prelude::*;

use crate::bytes::{read_u32, word_at};
use crate::encounter::{Sigil, WeaponInfo, INVALID_ID, PARTY_SIZE};
use crate::keys::keys_of;

verus! {

pub const MASTER_TRAITS_ID_TYPE: u32 = 3007;

pub const PARTY_WEAPON_SLOT_ID_TYPE: u32 = 1402;

pub const PARTY_SIGIL_LIST_ID_TYPE: u32 = 1403;

pub const SIGIL_ACQUISITION_ID_TYPE: u32 = 2702;

pub const SIGIL_ID_TYPE: u32 = 2703;

pub const SIGIL_LEVEL_ID_TYPE: u32 = 2704;

pub const SIGIL_EQUIPPED_CHARACTER_ID_TYPE: u32 = 2706;

pub const SIGIL_NOTIFICATION_ID_TYPE: u32 = 2707;

pub const WEAPON_SLOT_ID_TYPE: u32 = 2802;

pub const WEAPON_ID_TYPE: u32 = 2803;

pub const WEAPON_EXPERIENCE_ID_TYPE: u32 = 2804;

pub const WEAPON_STAR_LEVEL_ID_TYPE: u32 = 2805;

pub const WEAPON_PLUS_MARKS_ID_TYPE: u32 = 2806;

pub const WEAPON_AWAKENING_LEVEL_ID_TYPE: u32 = 2807;

pub const WEAPON_WRIGHTSTONE_ID_TYPE: u32 = 2816;

pub const WEAPON_UNIT_MIN: u32 = 40_000;

pub const WEAPON_UNIT_MAX: u32 = 40_255;

/// The unit id of the first member of the active party.
pub const ACTIVE_PARTY_UNIT_BASE: u32 = 104_000;

/// How many sigils a character can have equipped.
pub const SIGIL_SLOT_COUNT: usize = 12;

/// How many master traits are saved for a character.
pub const SAVED_NODE_COUNT: usize = 50;

/// The size of the header of a unit.
pub const UNIT_HEADER_SIZE: usize = 16;

/// How many places there are for a unit with `value_size` bytes of values.
pub open spec fn places(len: nat, value_size: nat) -> nat {
    if len < UNIT_HEADER_SIZE + value_size {
        0
    } else {
        ((len - UNIT_HEADER_SIZE - value_size) / 4 + 1) as nat
    }
}

/// Whether the header of a unit of the given type, id and number of values stands at
/// `offset`.
pub open spec fn unit_at(bytes: Seq<u8>, offset: int, id_type: u32, unit_id: u32, count: u32) -> bool {
    &&& word_at(bytes, offset) == Some(id_type)
    &&& word_at(bytes, offset + 4) == Some(unit_id)
    &&& word_at(bytes, offset + 8) == Some(4u32)
    &&& word_at(bytes, offset + 12) == Some(count)
}

/// The first `count` values of the unit at `offset`.
pub open spec fn values_at(bytes: Seq<u8>, offset: int, count: nat) -> Seq<u32> {
    Seq::new(count, |i: int| word_at(bytes, offset + UNIT_HEADER_SIZE + 4 * i)->0)
}

/// The unit id of member `member` of the active party.
pub open spec fn party_unit(member: int) -> u32 {
    (ACTIVE_PARTY_UNIT_BASE + member) as u32
}

/// Whether a saved word names a master trait.
pub open spec fn is_node() -> spec_fn(u32) -> bool {
    |value: u32| value != 0 && value != INVALID_ID
}

/// The master traits of a party member, by the last of the first `k` places that holds
/// them.
pub open spec fn build_in(bytes: Seq<u8>, member: int, k: nat) -> Seq<u32>
    decreases k,
{
    if k == 0 {
        Seq::empty()
    } else if unit_at(
        bytes,
        4 * (k - 1),
        MASTER_TRAITS_ID_TYPE,
        party_unit(member),
        SAVED_NODE_COUNT as u32,
    ) {
        values_at(bytes, 4 * (k - 1), SAVED_NODE_COUNT as nat).filter(is_node())
    } else {
        build_in(bytes, member, (k - 1) as nat)
    }
}

/// The master traits of a party member.
pub open spec fn saved_build(bytes: Seq<u8>, member: int) -> Seq<u32> {
    build_in(bytes, member, places(bytes.len(), 4 * SAVED_NODE_COUNT as nat))
}

/// The position in the party that a unit id stands for, if it stands for one.
fn party_position(unit_id: u32) -> (position: Option<usize>)
    ensures
        match position {
            Some(member) => member < PARTY_SIZE && unit_id == party_unit(member as int),
            None => forall|member: int| 0 <= member < PARTY_SIZE ==> unit_id != #[trigger] party_unit(
                member,
            ),
        },
{
    if unit_id >= ACTIVE_PARTY_UNIT_BASE && unit_id - ACTIVE_PARTY_UNIT_BASE < PARTY_SIZE as u32 {
        Some((unit_id - ACTIVE_PARTY_UNIT_BASE) as usize)
    } else {
        None
    }
}

/// The master traits that the unit at `offset` names.
fn read_nodes(bytes: &[u8], offset: usize) -> (nodes: Vec<u32>)
    requires
        offset + UNIT_HEADER_SIZE + 4 * SAVED_NODE_COUNT <= bytes@.len(),
    ensures
        nodes@ == values_at(bytes@, offset as int, SAVED_NODE_COUNT as nat).filter(is_node()),
{
    let ghost values = values_at(bytes@, offset as int, SAVED_NODE_COUNT as nat);
    let len: usize = bytes.len();
    let mut nodes: Vec<u32> = Vec::new();
    let mut index: usize = 0;
    proof {
        reveal(Seq::filter);
        assert(values.take(0) == Seq::<u32>::empty());
    }
    while index < SAVED_NODE_COUNT
        invariant
            index <= SAVED_NODE_COUNT,
            offset + UNIT_HEADER_SIZE + 4 * SAVED_NODE_COUNT <= len,
            len == bytes@.len(),
            values == values_at(bytes@, offset as int, SAVED_NODE_COUNT as nat),
            nodes@ == values.take(index as int).filter(is_node()),
        decreases SAVED_NODE_COUNT - index,
    {
        proof {
            reveal(Seq::filter);
            assert(values.take(index + 1).drop_last() == values.take(index as int));
        }
        if let Some(value) = read_u32(bytes, offset + UNIT_HEADER_SIZE + index * 4) {
            assert(values.take(index + 1).last() == value);
            if value != 0 && value != INVALID_ID {
                nodes.push(value);
            }
        }
        index = index + 1;
    }
    assert(values.take(index as int) == values);
    nodes
}

/// The master traits of each member of the active party.
pub fn parse_active_builds(bytes: &[u8]) -> (builds: [Vec<u32>; PARTY_SIZE])
    ensures
        forall|member: int|
            0 <= member < PARTY_SIZE ==> (#[trigger] builds@[member])@ == saved_build(
                bytes@,
                member,
            ),
{
    let mut builds: [Vec<u32>; PARTY_SIZE] = [Vec::new(), Vec::new(), Vec::new(), Vec::new()];
    let value_size: usize = SAVED_NODE_COUNT * 4;
    if bytes.len() < UNIT_HEADER_SIZE + value_size {
        return builds;
    }
    let len: usize = bytes.len();
    let last: usize = len - UNIT_HEADER_SIZE - value_size;
    let count: usize = last / 4 + 1;
    let mut k: usize = 0;
    while k < count
        invariant
            k <= count,
            value_size == 4 * SAVED_NODE_COUNT,
            len == bytes@.len(),
            len == last + UNIT_HEADER_SIZE + value_size,
            count == last / 4 + 1,
            forall|member: int|
                0 <= member < PARTY_SIZE ==> (#[trigger] builds@[member])@ == build_in(
                    bytes@,
                    member,
                    k as nat,
                ),
        decreases count - k,
    {
        let offset: usize = k * 4;
        let ghost before = builds@;
        if read_u32(bytes, offset) == Some(MASTER_TRAITS_ID_TYPE) && read_u32(bytes, offset + 8)
            == Some(4) && read_u32(bytes, offset + 12) == Some(SAVED_NODE_COUNT as u32) {
            if let Some(unit_id) = read_u32(bytes, offset + 4) {
                if let Some(member) = party_position(unit_id) {
                    builds[member] = read_nodes(bytes, offset);
                }
            }
        }
        assert forall|member: int| 0 <= member < PARTY_SIZE implies (#[trigger] builds@[member])@
            == build_in(bytes@, member, (k + 1) as nat) by {
            assert(before[member]@ == build_in(bytes@, member, k as nat));
            assert(party_unit(member) == ACTIVE_PARTY_UNIT_BASE + member);
        }
        k = k + 1;
    }
    builds
}

/// Whether units of a type tell of weapons: the slot of a party member's weapon, or a weapon of
/// the inventory.
pub open spec fn is_weapon_type(id_type: u32) -> bool {
    ||| id_type == PARTY_WEAPON_SLOT_ID_TYPE
    ||| id_type == WEAPON_SLOT_ID_TYPE
    ||| id_type == WEAPON_ID_TYPE
    ||| id_type == WEAPON_EXPERIENCE_ID_TYPE
    ||| id_type == WEAPON_STAR_LEVEL_ID_TYPE
    ||| id_type == WEAPON_PLUS_MARKS_ID_TYPE
    ||| id_type == WEAPON_AWAKENING_LEVEL_ID_TYPE
    ||| id_type == WEAPON_WRIGHTSTONE_ID_TYPE
}

/// Whether units of a type tell of sigils of the inventory.
pub open spec fn is_sigil_type(id_type: u32) -> bool {
    ||| id_type == SIGIL_ACQUISITION_ID_TYPE
    ||| id_type == SIGIL_ID_TYPE
    ||| id_type == SIGIL_LEVEL_ID_TYPE
    ||| id_type == SIGIL_EQUIPPED_CHARACTER_ID_TYPE
    ||| id_type == SIGIL_NOTIFICATION_ID_TYPE
}

/// What units are read for.
#[derive(Clone, Copy, Debug, PartialEq, Eq, Structural)]
pub enum UnitKind {
    Weapons,
    Sigils,
}

impl UnitKind {
    /// Whether units of a type are read.
    pub open spec fn has(self, id_type: u32) -> bool {
        match self {
            UnitKind::Weapons => is_weapon_type(id_type),
            UnitKind::Sigils => is_sigil_type(id_type),
        }
    }

    /// Whether units of a type are read.
    fn keeps(self, id_type: u32) -> (kept: bool)
        ensures
            kept == self.has(id_type),
    {
        match self {
            UnitKind::Weapons => id_type == PARTY_WEAPON_SLOT_ID_TYPE || id_type
                == WEAPON_SLOT_ID_TYPE || id_type == WEAPON_ID_TYPE || id_type
                == WEAPON_EXPERIENCE_ID_TYPE || id_type == WEAPON_STAR_LEVEL_ID_TYPE || id_type
                == WEAPON_PLUS_MARKS_ID_TYPE || id_type == WEAPON_AWAKENING_LEVEL_ID_TYPE || id_type
                == WEAPON_WRIGHTSTONE_ID_TYPE,
            UnitKind::Sigils => id_type == SIGIL_ACQUISITION_ID_TYPE || id_type == SIGIL_ID_TYPE
                || id_type == SIGIL_LEVEL_ID_TYPE || id_type == SIGIL_EQUIPPED_CHARACTER_ID_TYPE
                || id_type == SIGIL_NOTIFICATION_ID_TYPE,
        }
    }
}

/// The value of the single-value unit of the given type and id, by the last of the
/// first `k` places that holds it.
pub open spec fn value_in(bytes: Seq<u8>, id_type: u32, unit_id: u32, k: nat) -> Option<u32>
    decreases k,
{
    if k == 0 {
        None
    } else if unit_at(bytes, 4 * (k - 1), id_type, unit_id, 1) {
        word_at(bytes, 4 * (k - 1) + UNIT_HEADER_SIZE)
    } else {
        value_in(bytes, id_type, unit_id, (k - 1) as nat)
    }
}

/// The value of the single-value unit of the given type and id.
pub open spec fn saved_value(bytes: Seq<u8>, id_type: u32, unit_id: u32) -> Option<u32> {
    value_in(bytes, id_type, unit_id, places(bytes.len(), 4))
}

/// `unit_id` is the smallest id under which units of a type hold `value`.
pub open spec fn is_first_unit(bytes: Seq<u8>, id_type: u32, value: u32, unit_id: u32) -> bool {
    &&& saved_value(bytes, id_type, unit_id) == Some(value)
    &&& forall|other: u32|
        #[trigger] saved_value(bytes, id_type, other) == Some(value) ==> unit_id <= other
}

/// The smallest id under which units of a type hold `value`, if there is one.
pub open spec fn first_saved_unit(bytes: Seq<u8>, id_type: u32, value: u32) -> Option<u32> {
    if exists|unit_id: u32| is_first_unit(bytes, id_type, value, unit_id) {
        Some(choose|unit_id: u32| is_first_unit(bytes, id_type, value, unit_id))
    } else {
        None
    }
}

/// The values of the single-value units of a save file, by type and id.
pub struct UnitValues {
    values: HashMap<u64, u32>,
}

/// Type and id of a unit in one number.
spec fn unit_key(id_type: u32, unit_id: u32) -> u64 {
    (id_type * 0x1_0000_0000 + unit_id) as u64
}

impl UnitValues {
    /// The value of the unit of the given type and id.
    pub closed spec fn at(self, id_type: u32, unit_id: u32) -> Option<u32> {
        if self.values@.contains_key(unit_key(id_type, unit_id)) {
            Some(self.values@[unit_key(id_type, unit_id)])
        } else {
            None
        }
    }

    /// Whether these are the values of the units of a kind that a save file holds, and no
    /// others.
    pub open spec fn read_from(self, bytes: Seq<u8>, kind: UnitKind) -> bool {
        forall|id_type: u32, unit_id: u32| #[trigger]
            self.at(id_type, unit_id) == (if kind.has(id_type) {
                saved_value(bytes, id_type, unit_id)
            } else {
                None
            })
    }

    fn new() -> (values: Self)
        ensures
            forall|id_type: u32, unit_id: u32| #[trigger] values.at(id_type, unit_id) is None,
    {
        broadcast use vstd::std_specs::hash::group_hash_axioms;

        UnitValues { values: HashMap::new() }
    }

    fn insert(&mut self, id_type: u32, unit_id: u32, value: u32)
        ensures
            forall|t: u32, u: u32| #[trigger]
                final(self).at(t, u) == if t == id_type && u == unit_id {
                    Some(value)
                } else {
                    old(self).at(t, u)
                },
    {
        broadcast use vstd::std_specs::hash::group_hash_axioms;

        let key: u64 = id_type as u64 * 0x1_0000_0000 + unit_id as u64;
        self.values.insert(key, value);
        assert forall|t: u32, u: u32| #[trigger]
            self.at(t, u) == (if t == id_type && u == unit_id {
            Some(value)
        } else {
            old(self).at(t, u)
        }) by {
            assert(key == unit_key(id_type, unit_id));
            assert(unit_key(t, u) == key <==> t == id_type && u == unit_id);
        }
    }

    /// The value of the unit of the given type and id.
    pub fn get(&self, id_type: u32, unit_id: u32) -> (value: Option<u32>)
        ensures
            value == self.at(id_type, unit_id),
    {
        broadcast use vstd::std_specs::hash::group_hash_axioms;

        let key: u64 = id_type as u64 * 0x1_0000_0000 + unit_id as u64;
        assert(key == unit_key(id_type, unit_id));
        match self.values.get(&key) {
            Some(value) => Some(*value),
            None => None,
        }
    }

    /// The smallest id under which units of a type hold `value`, if there is one.
    pub fn first_unit(&self, id_type: u32, value: u32) -> (unit: Option<u32>)
        ensures
            match unit {
                Some(unit_id) => self.at(id_type, unit_id) == Some(value) && forall|other: u32|
                    #[trigger] self.at(id_type, other) == Some(value) ==> unit_id <= other,
                None => forall|other: u32| #[trigger] self.at(id_type, other) != Some(value),
            },
    {
        broadcast use vstd::std_specs::hash::group_hash_axioms;

        let keys: Vec<u64> = keys_of(&self.values);
        let mut best: Option<u32> = None;
        let mut i: usize = 0;
        while i < keys.len()
            invariant
                i <= keys.len(),
                forall|key: u64| keys@.contains(key) <==> #[trigger] self.values@.contains_key(key),
                best matches Some(unit_id) ==> self.at(id_type, unit_id) == Some(value),
                forall|k: int|
                    0 <= k < i && is_unit_of(#[trigger] keys@[k], id_type)
                        && self.values@[keys@[k]] == value ==> best is Some && best->0 as u64
                        <= keys@[k] % 0x1_0000_0000,
            decreases keys.len() - i,
        {
            let key: u64 = keys[i];
            assert(keys@.contains(key));
            if key / 0x1_0000_0000 == id_type as u64 {
                if let Some(found) = self.values.get(&key) {
                    if *found == value {
                        let unit_id: u32 = (key % 0x1_0000_0000) as u32;
                        assert(unit_key(id_type, unit_id) == key);
                        let better: bool = match best {
                            Some(first) => unit_id < first,
                            None => true,
                        };
                        if better {
                            best = Some(unit_id);
                        }
                    }
                }
            }
            i = i + 1;
        }
        assert forall|other: u32| #[trigger] self.at(id_type, other) == Some(value) implies best is Some
            && best->0 <= other by {
            let key = unit_key(id_type, other);
            assert(key / 0x1_0000_0000 == id_type && key % 0x1_0000_0000 == other);
            assert(keys@.contains(key));
            let k = choose|k: int| 0 <= k < keys@.len() && keys@[k] == key;
            assert(is_unit_of(keys@[k], id_type));
        }
        best
    }
}

/// Whether a key is one of a unit of the given type.
spec fn is_unit_of(key: u64, id_type: u32) -> bool {
    key / 0x1_0000_0000 == id_type
}

/// The values of the single-value units of a kind.
fn parse_units(bytes: &[u8], kind: UnitKind) -> (values: UnitValues)
    ensures
        values.read_from(bytes@, kind),
{
    let mut values = UnitValues::new();
    if bytes.len() < UNIT_HEADER_SIZE + 4 {
        return values;
    }
    let len: usize = bytes.len();
    let last: usize = len - UNIT_HEADER_SIZE - 4;
    let count: usize = last / 4 + 1;
    let mut k: usize = 0;
    while k < count
        invariant
            k <= count,
            len == bytes@.len(),
            len == last + UNIT_HEADER_SIZE + 4,
            count == last / 4 + 1,
            forall|id_type: u32, unit_id: u32| #[trigger]
                values.at(id_type, unit_id) == (if kind.has(id_type) {
                    value_in(bytes@, id_type, unit_id, k as nat)
                } else {
                    None
                }),
        decreases count - k,
    {
        let offset: usize = k * 4;
        let ghost before = values;
        if read_u32(bytes, offset + 8) == Some(4) && read_u32(bytes, offset + 12) == Some(1) {
            if let Some(id_type) = read_u32(bytes, offset) {
                if kind.keeps(id_type) {
                    if let (Some(unit_id), Some(value)) = (
                        read_u32(bytes, offset + 4),
                        read_u32(bytes, offset + UNIT_HEADER_SIZE),
                    ) {
                        values.insert(id_type, unit_id, value);
                    }
                }
            }
        }
        assert forall|id_type: u32, unit_id: u32| #[trigger]
            values.at(id_type, unit_id) == (if kind.has(id_type) {
            value_in(bytes@, id_type, unit_id, (k + 1) as nat)
        } else {
            None
        }) by {
            assert(before.at(id_type, unit_id) == (if kind.has(id_type) {
                value_in(bytes@, id_type, unit_id, k as nat)
            } else {
                None
            }));
            assert(word_at(bytes@, 4 * k + UNIT_HEADER_SIZE) is Some);
        }
        k = k + 1;
    }
    values
}

/// The values of the single-value units of a save file that tell of weapons.
pub fn parse_single_value_units(bytes: &[u8]) -> (values: UnitValues)
    ensures
        forall|id_type: u32, unit_id: u32| #[trigger]
            values.at(id_type, unit_id) == (if is_weapon_type(id_type) {
                saved_value(bytes@, id_type, unit_id)
            } else {
                None
            }),
{
    parse_units(bytes, UnitKind::Weapons)
}

/// The values of the single-value units of a save file that tell of sigils.
pub fn parse_sigil_fields(bytes: &[u8]) -> (values: UnitValues)
    ensures
        forall|id_type: u32, unit_id: u32| #[trigger]
            values.at(id_type, unit_id) == (if is_sigil_type(id_type) {
                saved_value(bytes@, id_type, unit_id)
            } else {
                None
            }),
{
    parse_units(bytes, UnitKind::Sigils)
}

/// How many of the leading thresholds `experience` reaches.
pub open spec fn level_of(thresholds: Seq<u32>, experience: u32) -> nat
    decreases thresholds.len(),
{
    if thresholds.len() == 0 || thresholds[0] > experience {
        0
    } else {
        1 + level_of(thresholds.drop_first(), experience)
    }
}

/// The level of a weapon, given the experience at which each level begins.
pub fn weapon_level_from_experience(thresholds: &[u32], experience: u32) -> (level: u32)
    requires
        thresholds@.len() <= u32::MAX,
    ensures
        level == level_of(thresholds@, experience),
        level <= thresholds@.len(),
{
    let mut level: u32 = 0;
    assert(thresholds@.skip(0) == thresholds@);
    while (level as usize) < thresholds.len() && thresholds[level as usize] <= experience
        invariant
            level <= thresholds@.len() <= u32::MAX,
            level_of(thresholds@, experience) == level + level_of(
                thresholds@.skip(level as int),
                experience,
            ),
        decreases thresholds.len() - level,
    {
        assert(thresholds@.skip(level as int).drop_first() == thresholds@.skip(level + 1));
        level = level + 1;
    }
    level
}

/// A value that is at most `maximum`, or else zero.
pub open spec fn capped_value(value: Option<u32>, maximum: u32) -> u32 {
    match value {
        Some(value) => if value <= maximum {
            value
        } else {
            0
        },
        None => 0,
    }
}

/// A value, or else `default`.
pub open spec fn value_or(value: Option<u32>, default: u32) -> u32 {
    match value {
        Some(value) => value,
        None => default,
    }
}

/// A value that names something, if it does.
pub open spec fn named(value: Option<u32>) -> Option<u32> {
    match value {
        Some(id) => if id != 0 && id != INVALID_ID {
            Some(id)
        } else {
            None
        },
        None => None,
    }
}

/// The weapon that a unit of the inventory holds.
pub open spec fn saved_inventory_weapon(bytes: Seq<u8>, thresholds: Seq<u32>, unit: u32) -> Option<
    WeaponInfo,
> {
    match named(saved_value(bytes, WEAPON_ID_TYPE, unit)) {
        Some(weapon_id) => Some(
            WeaponInfo {
                weapon_id,
                star_level: capped_value(saved_value(bytes, WEAPON_STAR_LEVEL_ID_TYPE, unit), 6),
                plus_marks: capped_value(saved_value(bytes, WEAPON_PLUS_MARKS_ID_TYPE, unit), 99),
                awakening_level: capped_value(
                    saved_value(bytes, WEAPON_AWAKENING_LEVEL_ID_TYPE, unit),
                    10,
                ),
                trait_1_id: INVALID_ID,
                trait_1_level: 0,
                trait_2_id: INVALID_ID,
                trait_2_level: 0,
                trait_3_id: INVALID_ID,
                trait_3_level: 0,
                wrightstone_id: match saved_value(bytes, WEAPON_WRIGHTSTONE_ID_TYPE, unit) {
                    Some(id) => if id != 0 {
                        id
                    } else {
                        INVALID_ID
                    },
                    None => INVALID_ID,
                },
                weapon_level: level_of(
                    thresholds,
                    value_or(saved_value(bytes, WEAPON_EXPERIENCE_ID_TYPE, unit), 0),
                ) as u32,
                weapon_hp: 0,
                weapon_attack: 0,
            },
        ),
        None => None,
    }
}

/// The weapon of a party member, found through the slot of the inventory it lies in.
pub open spec fn saved_weapon(bytes: Seq<u8>, thresholds: Seq<u32>, member: int) -> Option<WeaponInfo> {
    match saved_value(bytes, PARTY_WEAPON_SLOT_ID_TYPE, party_unit(member)) {
        Some(slot) => match first_saved_unit(bytes, WEAPON_SLOT_ID_TYPE, slot) {
            Some(unit) => if WEAPON_UNIT_MIN <= unit <= WEAPON_UNIT_MAX {
                saved_inventory_weapon(bytes, thresholds, unit)
            } else {
                None
            },
            None => None,
        },
        None => None,
    }
}

impl UnitValues {
    /// A value that is at most `maximum`, or else zero.
    fn capped(&self, id_type: u32, unit_id: u32, maximum: u32) -> (value: u32)
        ensures
            value == capped_value(self.at(id_type, unit_id), maximum),
    {
        match self.get(id_type, unit_id) {
            Some(value) => if value <= maximum {
                value
            } else {
                0
            },
            None => 0,
        }
    }

    /// A value, or else `default`.
    fn get_or(&self, id_type: u32, unit_id: u32, default: u32) -> (value: u32)
        ensures
            value == value_or(self.at(id_type, unit_id), default),
    {
        match self.get(id_type, unit_id) {
            Some(value) => value,
            None => default,
        }
    }

    /// A value that names something, if it does.
    fn get_named(&self, id_type: u32, unit_id: u32) -> (value: Option<u32>)
        ensures
            value == named(self.at(id_type, unit_id)),
    {
        match self.get(id_type, unit_id) {
            Some(value) => if value != 0 && value != INVALID_ID {
                Some(value)
            } else {
                None
            },
            None => None,
        }
    }

    /// The smallest id under which a save file's units of a type hold `value`.
    fn first_unit_of(&self, bytes: Ghost<Seq<u8>>, id_type: u32, value: u32) -> (unit: Option<u32>)
        requires
            forall|unit_id: u32| #[trigger]
                self.at(id_type, unit_id) == saved_value(bytes@, id_type, unit_id),
        ensures
            unit == first_saved_unit(bytes@, id_type, value),
    {
        let unit = self.first_unit(id_type, value);
        proof {
            match unit {
                Some(unit_id) => {
                    assert forall|other: u32| #[trigger]
                        saved_value(bytes@, id_type, other) == Some(value) implies unit_id
                        <= other by {
                        assert(self.at(id_type, other) == saved_value(bytes@, id_type, other));
                    }
                    assert(self.at(id_type, unit_id) == saved_value(bytes@, id_type, unit_id));
                    assert(is_first_unit(bytes@, id_type, value, unit_id));
                    let chosen = choose|u: u32| is_first_unit(bytes@, id_type, value, u);
                    assert(saved_value(bytes@, id_type, chosen) == Some(value));
                    assert(self.at(id_type, chosen) == Some(value));
                },
                None => {
                    assert forall|u: u32| !is_first_unit(bytes@, id_type, value, u) by {
                        assert(self.at(id_type, u) == saved_value(bytes@, id_type, u));
                    }
                },
            }
        }
        unit
    }

    /// The weapon of a party member.
    fn weapon(&self, bytes: Ghost<Seq<u8>>, thresholds: &[u32], member: usize) -> (weapon: Option<
        WeaponInfo,
    >)
        requires
            self.read_from(bytes@, UnitKind::Weapons),
            thresholds@.len() <= u32::MAX,
            member < PARTY_SIZE,
        ensures
            weapon == saved_weapon(bytes@, thresholds@, member as int),
    {
        let party_unit_id: u32 = ACTIVE_PARTY_UNIT_BASE + member as u32;
        let slot: u32 = match self.get(PARTY_WEAPON_SLOT_ID_TYPE, party_unit_id) {
            Some(slot) => slot,
            None => {
                return None;
            },
        };
        let unit: u32 = match self.first_unit_of(bytes, WEAPON_SLOT_ID_TYPE, slot) {
            Some(unit) => unit,
            None => {
                return None;
            },
        };
        if unit < WEAPON_UNIT_MIN || unit > WEAPON_UNIT_MAX {
            return None;
        }
        let weapon_id: u32 = match self.get_named(WEAPON_ID_TYPE, unit) {
            Some(weapon_id) => weapon_id,
            None => {
                return None;
            },
        };
        let wrightstone: u32 = self.get_or(WEAPON_WRIGHTSTONE_ID_TYPE, unit, INVALID_ID);
        let experience: u32 = self.get_or(WEAPON_EXPERIENCE_ID_TYPE, unit, 0);
        Some(
            WeaponInfo {
                weapon_id,
                star_level: self.capped(WEAPON_STAR_LEVEL_ID_TYPE, unit, 6),
                plus_marks: self.capped(WEAPON_PLUS_MARKS_ID_TYPE, unit, 99),
                awakening_level: self.capped(WEAPON_AWAKENING_LEVEL_ID_TYPE, unit, 10),
                trait_1_id: INVALID_ID,
                trait_1_level: 0,
                trait_2_id: INVALID_ID,
                trait_2_level: 0,
                trait_3_id: INVALID_ID,
                trait_3_level: 0,
                wrightstone_id: if wrightstone != 0 {
                    wrightstone
                } else {
                    INVALID_ID
                },
                weapon_level: weapon_level_from_experience(thresholds, experience),
                weapon_hp: 0,
                weapon_attack: 0,
            },
        )
    }
}

/// The weapon of each member of the active party, given the experience at which each
/// weapon level begins.
pub fn parse_active_weapons(bytes: &[u8], thresholds: &[u32]) -> (weapons: [Option<
    WeaponInfo,
>; PARTY_SIZE])
    requires
        thresholds@.len() <= u32::MAX,
    ensures
        forall|member: int|
            0 <= member < PARTY_SIZE ==> #[trigger] weapons@[member] == saved_weapon(
                bytes@,
                thresholds@,
                member,
            ),
{
    let values = parse_single_value_units(bytes);
    [
        values.weapon(Ghost(bytes@), thresholds, 0),
        values.weapon(Ghost(bytes@), thresholds, 1),
        values.weapon(Ghost(bytes@), thresholds, 2),
        values.weapon(Ghost(bytes@), thresholds, 3),
    ]
}

/// The traits of a sigil, as the game data lists them.
#[derive(Clone, Copy, Debug, PartialEq, Eq, Structural)]
pub struct SigilTraitRow {
    pub sigil_id: u32,
    pub first_trait_id: u32,
    pub second_trait_id: u32,
}

/// The traits of the sigils that a list names; the last entry for a sigil counts.
pub open spec fn traits_in(rows: Seq<SigilTraitRow>) -> Map<u32, (u32, u32)>
    decreases rows.len(),
{
    if rows.len() == 0 {
        Map::empty()
    } else {
        traits_in(rows.drop_last()).insert(
            rows.last().sigil_id,
            (rows.last().first_trait_id, rows.last().second_trait_id),
        )
    }
}

/// The traits of sigils, by sigil id.
#[derive(Debug)]
pub struct SigilTraits {
    traits: HashMap<u32, (u32, u32)>,
}

impl View for SigilTraits {
    type V = Map<u32, (u32, u32)>;

    closed spec fn view(&self) -> Map<u32, (u32, u32)> {
        self.traits@
    }
}

/// The traits of a sigil, if they are known.
pub open spec fn traits_of(traits: Map<u32, (u32, u32)>, sigil_id: u32) -> Option<(u32, u32)> {
    if traits.contains_key(sigil_id) {
        Some(traits[sigil_id])
    } else {
        None
    }
}

impl SigilTraits {
    /// The traits that a list names.
    pub fn from_rows(rows: &[SigilTraitRow]) -> (traits: Self)
        ensures
            traits@ == traits_in(rows@),
    {
        broadcast use vstd::std_specs::hash::group_hash_axioms;

        let mut traits: HashMap<u32, (u32, u32)> = HashMap::new();
        let mut i: usize = 0;
        assert(rows@.take(0) == Seq::<SigilTraitRow>::empty());
        while i < rows.len()
            invariant
                i <= rows.len(),
                traits@ == traits_in(rows@.take(i as int)),
            decreases rows.len() - i,
        {
            assert(rows@.take(i + 1).drop_last() == rows@.take(i as int));
            let row: SigilTraitRow = rows[i];
            traits.insert(row.sigil_id, (row.first_trait_id, row.second_trait_id));
            i = i + 1;
        }
        assert(rows@.take(i as int) == rows@);
        SigilTraits { traits }
    }

    /// The traits of a sigil, if they are known.
    pub fn sigil_trait_ids(&self, sigil_id: u32) -> (traits: Option<(u32, u32)>)
        ensures
            traits == traits_of(self@, sigil_id),
    {
        broadcast use vstd::std_specs::hash::group_hash_axioms;

        match self.traits.get(&sigil_id) {
            Some(traits) => Some(*traits),
            None => None,
        }
    }
}

/// An empty sigil slot.
pub open spec fn no_sigil() -> Sigil {
    Sigil {
        first_trait_id: INVALID_ID,
        first_trait_level: 0,
        second_trait_id: INVALID_ID,
        second_trait_level: 0,
        sigil_id: INVALID_ID,
        equipped_character: INVALID_ID,
        sigil_level: 0,
        acquisition_count: 0,
        notification_enum: 0,
    }
}

/// An empty sigil slot.
pub fn empty_sigil() -> (sigil: Sigil)
    ensures
        sigil == no_sigil(),
{
    Sigil {
        first_trait_id: INVALID_ID,
        first_trait_level: 0,
        second_trait_id: INVALID_ID,
        second_trait_level: 0,
        sigil_id: INVALID_ID,
        equipped_character: INVALID_ID,
        sigil_level: 0,
        acquisition_count: 0,
        notification_enum: 0,
    }
}

/// Whether the list of sigils of a party member stands at `offset`: it has at least as
/// many values as there are slots, and they lie within the file.
pub open spec fn sigil_list_at(bytes: Seq<u8>, offset: int, member: int) -> bool {
    exists|count: u32| #[trigger]
        unit_at(bytes, offset, PARTY_SIGIL_LIST_ID_TYPE, party_unit(member), count) && count
            >= SIGIL_SLOT_COUNT && offset + UNIT_HEADER_SIZE + 4 * count <= bytes.len()
}

/// The list of sigils of a party member, by the last of the first `k` places that holds
/// one; empty if none does.
pub open spec fn sigil_list_in(bytes: Seq<u8>, member: int, k: nat) -> Seq<u32>
    decreases k,
{
    if k == 0 {
        Seq::empty()
    } else if sigil_list_at(bytes, 4 * (k - 1), member) {
        values_at(bytes, 4 * (k - 1), SIGIL_SLOT_COUNT as nat)
    } else {
        sigil_list_in(bytes, member, (k - 1) as nat)
    }
}

/// The list of sigils of a party member.
pub open spec fn saved_sigil_list(bytes: Seq<u8>, member: int) -> Seq<u32> {
    sigil_list_in(bytes, member, places(bytes.len(), 4))
}

/// A level, if it is one that a sigil can have, or else zero.
pub open spec fn sigil_level_of(value: Option<u32>) -> u32 {
    match value {
        Some(level) => if 1 <= level <= 15 {
            level
        } else {
            0
        },
        None => 0,
    }
}

/// The level of a trait of a sigil: that of the sigil, if there is such a trait.
pub open spec fn level_for(trait_id: u32, level: u32) -> u32 {
    if trait_id != INVALID_ID {
        level
    } else {
        0
    }
}

/// The sigil that a unit of the inventory holds.
pub open spec fn saved_inventory_sigil(
    bytes: Seq<u8>,
    traits: Map<u32, (u32, u32)>,
    acquisition_id: u32,
    unit: u32,
) -> Sigil {
    match named(saved_value(bytes, SIGIL_ID_TYPE, unit)) {
        Some(sigil_id) => {
            let sigil_level = sigil_level_of(saved_value(bytes, SIGIL_LEVEL_ID_TYPE, unit));
            let (first_trait_id, second_trait_id) = match traits_of(traits, sigil_id) {
                Some(ids) => ids,
                None => (INVALID_ID, INVALID_ID),
            };
            Sigil {
                first_trait_id,
                first_trait_level: level_for(first_trait_id, sigil_level),
                second_trait_id,
                second_trait_level: level_for(second_trait_id, sigil_level),
                sigil_id,
                equipped_character: value_or(
                    saved_value(bytes, SIGIL_EQUIPPED_CHARACTER_ID_TYPE, unit),
                    INVALID_ID,
                ),
                sigil_level,
                acquisition_count: acquisition_id,
                notification_enum: value_or(
                    saved_value(bytes, SIGIL_NOTIFICATION_ID_TYPE, unit),
                    0,
                ),
            }
        },
        None => no_sigil(),
    }
}

/// The sigil that was acquired under the given number.
pub open spec fn saved_sigil(
    bytes: Seq<u8>,
    traits: Map<u32, (u32, u32)>,
    acquisition_id: u32,
) -> Sigil {
    if acquisition_id == 0 || acquisition_id == INVALID_ID {
        no_sigil()
    } else {
        match first_saved_unit(bytes, SIGIL_ACQUISITION_ID_TYPE, acquisition_id) {
            Some(unit) => saved_inventory_sigil(bytes, traits, acquisition_id, unit),
            None => no_sigil(),
        }
    }
}

/// The sigils of a party member, slot by slot.
pub open spec fn saved_sigils(bytes: Seq<u8>, traits: Map<u32, (u32, u32)>, member: int) -> Seq<Sigil> {
    saved_sigil_list(bytes, member).map_values(
        |acquisition_id: u32| saved_sigil(bytes, traits, acquisition_id),
    )
}

/// The first values of the list of sigils at `offset`.
fn read_slots(bytes: &[u8], offset: usize) -> (slots: Vec<u32>)
    requires
        offset + UNIT_HEADER_SIZE + 4 * SIGIL_SLOT_COUNT <= bytes@.len(),
    ensures
        slots@ == values_at(bytes@, offset as int, SIGIL_SLOT_COUNT as nat),
{
    let len: usize = bytes.len();
    let mut slots: Vec<u32> = Vec::new();
    let mut index: usize = 0;
    while index < SIGIL_SLOT_COUNT
        invariant
            index <= SIGIL_SLOT_COUNT,
            offset + UNIT_HEADER_SIZE + 4 * SIGIL_SLOT_COUNT <= len,
            len == bytes@.len(),
            slots@ == values_at(bytes@, offset as int, index as nat),
        decreases SIGIL_SLOT_COUNT - index,
    {
        if let Some(value) = read_u32(bytes, offset + UNIT_HEADER_SIZE + index * 4) {
            slots.push(value);
        }
        index = index + 1;
        assert(slots@ == values_at(bytes@, offset as int, index as nat));
    }
    slots
}

/// The list of sigils of each member of the active party.
fn parse_sigil_lists(bytes: &[u8]) -> (lists: [Vec<u32>; PARTY_SIZE])
    ensures
        forall|member: int|
            0 <= member < PARTY_SIZE ==> (#[trigger] lists@[member])@ == saved_sigil_list(
                bytes@,
                member,
            ),
{
    let mut lists: [Vec<u32>; PARTY_SIZE] = [Vec::new(), Vec::new(), Vec::new(), Vec::new()];
    if bytes.len() < UNIT_HEADER_SIZE + 4 {
        return lists;
    }
    let len: usize = bytes.len();
    let last: usize = len - UNIT_HEADER_SIZE - 4;
    let places: usize = last / 4 + 1;
    let mut k: usize = 0;
    while k < places
        invariant
            k <= places,
            len == bytes@.len(),
            len == last + UNIT_HEADER_SIZE + 4,
            places == last / 4 + 1,
            forall|member: int|
                0 <= member < PARTY_SIZE ==> (#[trigger] lists@[member])@ == sigil_list_in(
                    bytes@,
                    member,
                    k as nat,
                ),
        decreases places - k,
    {
        let offset: usize = k * 4;
        let ghost before = lists@;
        let mut found: Option<usize> = None;
        if read_u32(bytes, offset + 8) == Some(4) && read_u32(bytes, offset) == Some(
            PARTY_SIGIL_LIST_ID_TYPE,
        ) {
            if let (Some(unit_id), Some(count)) = (
                read_u32(bytes, offset + 4),
                read_u32(bytes, offset + 12),
            ) {
                if let Some(member) = party_position(unit_id) {
                    let room: u64 = (len - offset - UNIT_HEADER_SIZE) as u64;
                    if count >= SIGIL_SLOT_COUNT as u32 && count as u64 * 4 <= room {
                        assert(unit_at(
                            bytes@,
                            offset as int,
                            PARTY_SIGIL_LIST_ID_TYPE,
                            party_unit(member as int),
                            count,
                        ));
                        assert(sigil_list_at(bytes@, offset as int, member as int));
                        lists[member] = read_slots(bytes, offset);
                        found = Some(member);
                    }
                }
            }
        }
        assert forall|member: int| 0 <= member < PARTY_SIZE implies (#[trigger] lists@[member])@
            == sigil_list_in(bytes@, member, (k + 1) as nat) by {
            assert(before[member]@ == sigil_list_in(bytes@, member, k as nat));
            assert(party_unit(member) == ACTIVE_PARTY_UNIT_BASE + member);
            if found != Some(member as usize) {
                assert(!sigil_list_at(bytes@, offset as int, member));
            }
        }
        k = k + 1;
    }
    lists
}

impl UnitValues {
    /// The sigil that was acquired under the given number.
    fn sigil(&self, bytes: Ghost<Seq<u8>>, traits: &SigilTraits, acquisition_id: u32) -> (sigil: Sigil)
        requires
            self.read_from(bytes@, UnitKind::Sigils),
        ensures
            sigil == saved_sigil(bytes@, traits@, acquisition_id),
    {
        if acquisition_id == 0 || acquisition_id == INVALID_ID {
            return empty_sigil();
        }
        let unit: u32 = match self.first_unit_of(bytes, SIGIL_ACQUISITION_ID_TYPE, acquisition_id) {
            Some(unit) => unit,
            None => {
                return empty_sigil();
            },
        };
        let sigil_id: u32 = match self.get_named(SIGIL_ID_TYPE, unit) {
            Some(sigil_id) => sigil_id,
            None => {
                return empty_sigil();
            },
        };
        let level: u32 = self.get_or(SIGIL_LEVEL_ID_TYPE, unit, 0);
        let sigil_level: u32 = if 1 <= level && level <= 15 {
            level
        } else {
            0
        };
        let (first_trait_id, second_trait_id): (u32, u32) = match traits.sigil_trait_ids(sigil_id) {
            Some(ids) => ids,
            None => (INVALID_ID, INVALID_ID),
        };
        Sigil {
            first_trait_id,
            first_trait_level: if first_trait_id != INVALID_ID {
                sigil_level
            } else {
                0
            },
            second_trait_id,
            second_trait_level: if second_trait_id != INVALID_ID {
                sigil_level
            } else {
                0
            },
            sigil_id,
            equipped_character: self.get_or(SIGIL_EQUIPPED_CHARACTER_ID_TYPE, unit, INVALID_ID),
            sigil_level,
            acquisition_count: acquisition_id,
            notification_enum: self.get_or(SIGIL_NOTIFICATION_ID_TYPE, unit, 0),
        }
    }

    /// The sigils of a list of acquisition numbers, one for one.
    fn sigils(&self, bytes: Ghost<Seq<u8>>, traits: &SigilTraits, list: &Vec<u32>) -> (sigils: Vec<
        Sigil,
    >)
        requires
            self.read_from(bytes@, UnitKind::Sigils),
        ensures
            sigils@ == list@.map_values(|id: u32| saved_sigil(bytes@, traits@, id)),
    {
        let ghost all = list@.map_values(|id: u32| saved_sigil(bytes@, traits@, id));
        let mut sigils: Vec<Sigil> = Vec::new();
        let mut i: usize = 0;
        while i < list.len()
            invariant
                i <= list.len(),
                self.read_from(bytes@, UnitKind::Sigils),
                all == list@.map_values(|id: u32| saved_sigil(bytes@, traits@, id)),
                sigils@ == all.take(i as int),
            decreases list.len() - i,
        {
            sigils.push(self.sigil(bytes, traits, list[i]));
            i = i + 1;
            assert(sigils@ == all.take(i as int));
        }
        assert(all.take(i as int) == all);
        sigils
    }
}

/// The sigils of each member of the active party: twelve, or none if no list of them is
/// saved.
pub fn parse_active_sigils(bytes: &[u8], traits: &SigilTraits) -> (sigils: [Vec<Sigil>; PARTY_SIZE])
    ensures
        forall|member: int|
            0 <= member < PARTY_SIZE ==> (#[trigger] sigils@[member])@ == saved_sigils(
                bytes@,
                traits@,
                member,
            ),
{
    let lists = parse_sigil_lists(bytes);
    let values = parse_sigil_fields(bytes);
    let sigils: [Vec<Sigil>; PARTY_SIZE] = [
        values.sigils(Ghost(bytes@), traits, &lists[0]),
        values.sigils(Ghost(bytes@), traits, &lists[1]),
        values.sigils(Ghost(bytes@), traits, &lists[2]),
        values.sigils(Ghost(bytes@), traits, &lists[3]),
    ];
    assert forall|member: int| 0 <= member < PARTY_SIZE implies (#[trigger] sigils@[member])@
        == saved_sigils(bytes@, traits@, member) by {
        assert(lists@[member]@ == saved_sigil_list(bytes@, member));
    }
    sigils
}

/// How many save files the game keeps.
pub const SAVE_FILE_COUNT: usize = 3;

/// The tables of game data that a save file is read with.
#[derive(Debug)]
pub struct GameTables {
    pub sigil_traits: SigilTraits,
    /// The experience at which each weapon level begins.
    pub weapon_experience: Vec<u32>,
}

/// What was read from a save file.
#[derive(Debug)]
pub struct CachedBuilds {
    /// Where the file lies.
    pub path: String,
    /// When it was last written, in nanoseconds.
    pub modified: i128,
    pub builds: [Vec<u32>; PARTY_SIZE],
    pub weapons: [Option<WeaponInfo>; PARTY_SIZE],
    pub sigils: [Vec<Sigil>; PARTY_SIZE],
}

impl CachedBuilds {
    /// Whether this is what a file with the given contents says.
    pub open spec fn read_from(self, bytes: Seq<u8>, tables: GameTables) -> bool {
        forall|member: int|
            #![trigger self.builds@[member]]
            #![trigger self.weapons@[member]]
            #![trigger self.sigils@[member]]
            0 <= member < PARTY_SIZE ==> {
                &&& self.builds@[member]@ == saved_build(bytes, member)
                &&& self.weapons@[member] == saved_weapon(
                    bytes,
                    tables.weapon_experience@,
                    member,
                )
                &&& self.sigils@[member]@ == saved_sigils(bytes, tables.sigil_traits@, member)
            }
    }

    /// What the file at `path`, last written at `modified`, says.
    pub fn read(path: String, modified: i128, bytes: &[u8], tables: &GameTables) -> (builds: Self)
        requires
            tables.weapon_experience@.len() <= u32::MAX,
        ensures
            builds.path == path,
            builds.modified == modified,
            builds.read_from(bytes@, *tables),
    {
        let builds = parse_active_builds(bytes);
        let weapons = parse_active_weapons(bytes, tables.weapon_experience.as_slice());
        let sigils = parse_active_sigils(bytes, &tables.sigil_traits);
        CachedBuilds { path, modified, builds, weapons, sigils }
    }
}

/// What was last read from a save file, so that it is read again only once it changes.
#[derive(Debug)]
pub struct SaveCache {
    pub cached: Option<CachedBuilds>,
}

/// Whether what was last read is what the file at `path`, last written at `modified`, says.
pub open spec fn is_current(cached: Option<CachedBuilds>, path: Seq<char>, modified: i128) -> bool {
    cached is Some && cached->0.path@ == path && cached->0.modified == modified
}

/// Whether `after` is what is known once the file at `path` was read, unless it has not changed
/// since it was last read.
pub open spec fn is_refreshed(
    before: Option<CachedBuilds>,
    after: Option<CachedBuilds>,
    path: Seq<char>,
    modified: i128,
    bytes: Seq<u8>,
    tables: GameTables,
) -> bool {
    is_current(after, path, modified) && if is_current(before, path, modified) {
        after == before
    } else {
        after->0.read_from(bytes, tables)
    }
}

impl SaveCache {
    /// Whether what was last read is what the file at `path`, last written at `modified`,
    /// says.
    pub fn holds(&self, path: &String, modified: i128) -> (answer: bool)
        ensures
            answer == is_current(self.cached, path@, modified),
    {
        match &self.cached {
            Some(cached) => cached.path == *path && cached.modified == modified,
            None => false,
        }
    }

    /// Reads the file at `path` unless it has not changed since it was last read.
    /// `bytes` are its contents.
    pub fn refresh(&mut self, path: String, modified: i128, bytes: &[u8], tables: &GameTables)
        requires
            tables.weapon_experience@.len() <= u32::MAX,
        ensures
            is_refreshed(
                old(self).cached,
                final(self).cached,
                path@,
                modified,
                bytes@,
                *tables,
            ),
    {
        if self.holds(&path, modified) {
            return;
        }
        self.cached = Some(CachedBuilds::read(path, modified, bytes, tables));
    }
}

/// File `i` is the one that was written last, the last of them if there are several.
pub open spec fn is_newest(written: Seq<Option<i128>>, i: int) -> bool {
    &&& 0 <= i < written.len()
    &&& written[i] is Some
    &&& forall|k: int|
        0 <= k < written.len() && (#[trigger] written[k]) is Some ==> {
            ||| written[k]->0 < written[i]->0
            ||| written[k]->0 == written[i]->0 && k <= i
        }
}

/// The save file that was written last, given when each was (nothing for one that is
/// not there).
pub fn newest_save(written: &[Option<i128>; SAVE_FILE_COUNT]) -> (newest: Option<usize>)
    ensures
        match newest {
            Some(i) => is_newest(written@, i as int),
            None => forall|k: int| 0 <= k < SAVE_FILE_COUNT ==> (#[trigger] written@[k]) is None,
        },
{
    let mut newest: Option<(usize, i128)> = None;
    let mut i: usize = 0;
    while i < SAVE_FILE_COUNT
        invariant
            i <= SAVE_FILE_COUNT,
            match newest {
                Some((at, time)) => at < i && written@[at as int] == Some(time) && forall|k: int|
                    0 <= k < i && (#[trigger] written@[k]) is Some ==> {
                        ||| written@[k]->0 < time
                        ||| written@[k]->0 == time && k <= at
                    },
                None => forall|k: int| 0 <= k < i ==> (#[trigger] written@[k]) is None,
            },
        decreases SAVE_FILE_COUNT - i,
    {
        if let Some(time) = written[i] {
            let later: bool = match newest {
                Some((_, best)) => time >= best,
                None => true,
            };
            if later {
                newest = Some((i, time));
            }
        }
        i = i + 1;
    }
    match newest {
        Some((at, _)) => Some(at),
        None => None,
    }
}

/// The saved master traits of a party member.
pub open spec fn party_build(save: Option<&CachedBuilds>, party_index: u8) -> Seq<u32> {
    match save {
        Some(cached) => if party_index < PARTY_SIZE {
            cached.builds@[party_index as int]@
        } else {
            Seq::empty()
        },
        None => Seq::empty(),
    }
}

/// The saved weapon of a party member.
pub open spec fn party_weapon(save: Option<&CachedBuilds>, party_index: u8) -> Option<WeaponInfo> {
    match save {
        Some(cached) => if party_index < PARTY_SIZE {
            cached.weapons@[party_index as int]
        } else {
            None
        },
        None => None,
    }
}

/// The saved sigils of a party member.
pub open spec fn party_sigils(save: Option<&CachedBuilds>, party_index: u8) -> Seq<Sigil> {
    match save {
        Some(cached) => if party_index < PARTY_SIZE {
            cached.sigils@[party_index as int]@
        } else {
            Seq::empty()
        },
        None => Seq::empty(),
    }
}

/// The saved master traits of a party member.
pub fn load_for_party(save: Option<&CachedBuilds>, party_index: u8) -> (build: Vec<u32>)
    ensures
        build@ == party_build(save, party_index),
{
    let index: usize = party_index as usize;
    let mut build: Vec<u32> = Vec::new();
    if index >= PARTY_SIZE {
        return build;
    }
    if let Some(cached) = save {
        build.extend_from_slice(cached.builds[index].as_slice());
        assert(build@ == cached.builds@[index as int]@);
    }
    build
}

/// The saved weapon of a party member.
pub fn load_weapon_for_party(save: Option<&CachedBuilds>, party_index: u8) -> (weapon: Option<
    WeaponInfo,
>)
    ensures
        weapon == party_weapon(save, party_index),
{
    let index: usize = party_index as usize;
    if index >= PARTY_SIZE {
        return None;
    }
    match save {
        Some(cached) => cached.weapons[index],
        None => None,
    }
}

/// The saved sigils of a party member.
pub fn load_sigils_for_party(save: Option<&CachedBuilds>, party_index: u8) -> (sigils: Vec<Sigil>)
    ensures
        sigils@ == party_sigils(save, party_index),
{
    let index: usize = party_index as usize;
    let mut sigils: Vec<Sigil> = Vec::new();
    if index >= PARTY_SIZE {
        return sigils;
    }
    if let Some(cached) = save {
        sigils.extend_from_slice(cached.sigils[index].as_slice());
        assert(sigils@ == cached.sigils@[index as int]@);
    }
    sigils
}

/// A party member has twelve sigil slots, or none if no list of them is saved.
pub proof fn law_twelve_sigils(bytes: Seq<u8>, traits: Map<u32, (u32, u32)>, member: int)
    ensures
        saved_sigils(bytes, traits, member).len() == 0 || saved_sigils(bytes, traits, member).len()
            == SIGIL_SLOT_COUNT,
{
    lemma_sigil_list_len(bytes, member, places(bytes.len(), 4));
}

proof fn lemma_sigil_list_len(bytes: Seq<u8>, member: int, k: nat)
    ensures
        sigil_list_in(bytes, member, k).len() == 0 || sigil_list_in(bytes, member, k).len()
            == SIGIL_SLOT_COUNT,
    decreases k,
{
    if k > 0 {
        lemma_sigil_list_len(bytes, member, (k - 1) as nat);
    }
}

/// No more master traits are read than can be saved, and each of them names one.
pub proof fn law_builds_name_traits(bytes: Seq<u8>, member: int, i: int)
    ensures
        saved_build(bytes, member).len() <= SAVED_NODE_COUNT,
        0 <= i < saved_build(bytes, member).len() ==> saved_build(bytes, member)[i] != 0
            && saved_build(bytes, member)[i] != INVALID_ID,
{
    lemma_build_names_traits(bytes, member, places(bytes.len(), 4 * SAVED_NODE_COUNT as nat), i);
}

proof fn lemma_build_names_traits(bytes: Seq<u8>, member: int, k: nat, i: int)
    ensures
        build_in(bytes, member, k).len() <= SAVED_NODE_COUNT,
        0 <= i < build_in(bytes, member, k).len() ==> is_node()(build_in(bytes, member, k)[i]),
    decreases k,
{
    if k > 0 {
        lemma_build_names_traits(bytes, member, (k - 1) as nat, i);
        let values = values_at(bytes, 4 * (k - 1), SAVED_NODE_COUNT as nat);
        values.lemma_filter_len(is_node());
        if 0 <= i < values.filter(is_node()).len() {
            values.lemma_filter_pred(is_node(), i);
        }
    }
}

/// More experience never means a lower level.
pub proof fn law_levels_rise(thresholds: Seq<u32>, less: u32, more: u32)
    requires
        less <= more,
    ensures
        level_of(thresholds, less) <= level_of(thresholds, more) <= thresholds.len(),
    decreases thresholds.len(),
{
    if thresholds.len() > 0 {
        law_levels_rise(thresholds.drop_first(), less, more);
    }
}

/// What is read of a weapon is within what a weapon can have.
pub proof fn law_weapons_within_limits(bytes: Seq<u8>, thresholds: Seq<u32>, member: int)
    requires
        saved_weapon(bytes, thresholds, member) is Some,
    ensures
        saved_weapon(bytes, thresholds, member)->0.weapon_id != 0,
        saved_weapon(bytes, thresholds, member)->0.weapon_id != INVALID_ID,
        saved_weapon(bytes, thresholds, member)->0.star_level <= 6,
        saved_weapon(bytes, thresholds, member)->0.plus_marks <= 99,
        saved_weapon(bytes, thresholds, member)->0.awakening_level <= 10,
        saved_weapon(bytes, thresholds, member)->0.wrightstone_id != 0,
{
}

} // verus!
