//! What an actor has equipped, as far as it can be read.

use std::collections::HashMap;
use vstd::prelude::*;

use crate::bytes::{read_u32, word_at};
use crate::constants::character_of;
use crate::encounter::INVALID_ID;
use crate::float32::{Float32, ONE_MILLION_BITS, TEN_THOUSAND_BITS};
use crate::hooks::ffi::SigilEntry;
use crate::protocol::{Overmastery, OvermasteryInfo, PlayerStats, Sigil, WeaponInfo};

verus! {

pub const ACTOR_PLAYER_STATS_OFFSET: usize = 0x15030;

pub const ACTOR_WEAPON_INFO_OFFSET: usize = 0x15080;

pub const ACTOR_OVERMASTERY_OFFSET: usize = 0x1A8E8;

pub const ACTOR_MASTER_TRAIT_SCAN_SIZE: usize = 0x1C000;

/// How many words the stats of an actor take.
pub const PLAYER_STATS_WORDS: usize = 7;

/// How many words the weapon of an actor takes.
pub const WEAPON_INFO_WORDS: usize = 25;

/// How many words the overmasteries of an actor take.
pub const OVERMASTERY_WORDS: usize = 16;

/// What was read from an actor. A word that cannot be read is nothing.
#[derive(Debug)]
pub struct ActorBody {
    /// The words at `ACTOR_PLAYER_STATS_OFFSET`.
    pub stats: [Option<u32>; PLAYER_STATS_WORDS],
    /// The words at `ACTOR_WEAPON_INFO_OFFSET`.
    pub weapon: [Option<u32>; WEAPON_INFO_WORDS],
    /// The words at `ACTOR_OVERMASTERY_OFFSET`.
    pub overmasteries: [Option<u32>; OVERMASTERY_WORDS],
    /// The first `ACTOR_MASTER_TRAIT_SCAN_SIZE` bytes of the actor.
    pub data: Option<Vec<u8>>,
}

/// Whether stats are those of a player.
pub open spec fn plausible_stats(stats: PlayerStats) -> bool {
    &&& 1 <= stats.level <= 100
    &&& stats.total_hp > 0
    &&& stats.total_attack > 0
    &&& stats.stun_power.finite()
    &&& Float32 { bits: 0 }.at_most(stats.stun_power)
    &&& stats.stun_power.at_most(Float32 { bits: ONE_MILLION_BITS })
    &&& stats.critical_rate.finite()
    &&& Float32 { bits: 0 }.at_most(stats.critical_rate)
    &&& stats.critical_rate.at_most(Float32 { bits: TEN_THOUSAND_BITS })
    &&& stats.total_power > 0
}

/// The stats that words of an actor tell. The fourth word is not one of them.
pub open spec fn stats_in(words: Seq<Option<u32>>) -> Option<PlayerStats> {
    let stats = PlayerStats {
        level: words[0]->0,
        total_hp: words[1]->0,
        total_attack: words[2]->0,
        stun_power: Float32 { bits: words[4]->0 },
        critical_rate: Float32 { bits: words[5]->0 },
        total_power: words[6]->0,
    };
    if words[0] is Some && words[1] is Some && words[2] is Some && words[4] is Some && words[5] is Some
        && words[6] is Some && plausible_stats(stats) {
        Some(stats)
    } else {
        None
    }
}

/// The stats that words of an actor tell, if they are those of a player.
pub fn read_actor_player_stats(words: &[Option<u32>; PLAYER_STATS_WORDS]) -> (stats: Option<PlayerStats>)
    ensures
        stats == stats_in(words@),
{
    let stats = match (words[0], words[1], words[2], words[4], words[5], words[6]) {
        (
            Some(level),
            Some(total_hp),
            Some(total_attack),
            Some(stun_power),
            Some(critical_rate),
            Some(total_power),
        ) => PlayerStats {
            level,
            total_hp,
            total_attack,
            stun_power: Float32::from_bits(stun_power),
            critical_rate: Float32::from_bits(critical_rate),
            total_power,
        },
        _ => {
            return None;
        },
    };
    let zero: Float32 = Float32::zero();
    if 1 <= stats.level && stats.level <= 100 && stats.total_hp > 0 && stats.total_attack > 0
        && stats.stun_power.is_finite() && zero.le(stats.stun_power) && stats.stun_power.le(
        Float32::from_bits(ONE_MILLION_BITS),
    ) && stats.critical_rate.is_finite() && zero.le(stats.critical_rate) && stats.critical_rate.le(
        Float32::from_bits(TEN_THOUSAND_BITS),
    ) && stats.total_power > 0 {
        Some(stats)
    } else {
        None
    }
}

/// Whether a weapon is one that a player can have.
pub open spec fn plausible_weapon(weapon: WeaponInfo) -> bool {
    &&& weapon.weapon_id != 0
    &&& weapon.weapon_id != INVALID_ID
    &&& weapon.star_level <= 6
    &&& weapon.plus_marks <= 99
    &&& weapon.awakening_level <= 10
    &&& 1 <= weapon.weapon_level <= 150
    &&& weapon.weapon_hp > 0
    &&& weapon.weapon_attack > 0
}

/// Whether all the words that tell of a weapon could be read: words 1, 5 to 14, and 22 to
/// 24.
pub open spec fn weapon_words_read(words: Seq<Option<u32>>) -> bool {
    words[1] is Some && (forall|i: int| 5 <= i <= 14 ==> (#[trigger] words[i]) is Some)
        && words[22] is Some && words[23] is Some && words[24] is Some
}

/// The weapon that words of an actor tell.
pub open spec fn weapon_in(words: Seq<Option<u32>>) -> Option<WeaponInfo> {
    let weapon = WeaponInfo {
        weapon_id: words[1]->0,
        star_level: words[5]->0,
        plus_marks: words[6]->0,
        awakening_level: words[7]->0,
        trait_1_id: words[8]->0,
        trait_1_level: words[9]->0,
        trait_2_id: words[10]->0,
        trait_2_level: words[11]->0,
        trait_3_id: words[12]->0,
        trait_3_level: words[13]->0,
        wrightstone_id: words[14]->0,
        weapon_level: words[22]->0,
        weapon_hp: words[23]->0,
        weapon_attack: words[24]->0,
    };
    if weapon_words_read(words) && plausible_weapon(weapon) {
        Some(weapon)
    } else {
        None
    }
}

/// The weapon that words of an actor tell, if it is one that a player can have.
pub fn read_actor_weapon_info(words: &[Option<u32>; WEAPON_INFO_WORDS]) -> (weapon: Option<WeaponInfo>)
    ensures
        weapon == weapon_in(words@),
{
    let (weapon_id, star_level, plus_marks, awakening_level): (u32, u32, u32, u32) = match (
        words[1],
        words[5],
        words[6],
        words[7],
    ) {
        (Some(a), Some(b), Some(c), Some(d)) => (a, b, c, d),
        _ => {
            return None;
        },
    };
    let (trait_1_id, trait_1_level, trait_2_id, trait_2_level): (u32, u32, u32, u32) = match (
        words[8],
        words[9],
        words[10],
        words[11],
    ) {
        (Some(a), Some(b), Some(c), Some(d)) => (a, b, c, d),
        _ => {
            return None;
        },
    };
    let (trait_3_id, trait_3_level, wrightstone_id): (u32, u32, u32) = match (
        words[12],
        words[13],
        words[14],
    ) {
        (Some(a), Some(b), Some(c)) => (a, b, c),
        _ => {
            return None;
        },
    };
    let (weapon_level, weapon_hp, weapon_attack): (u32, u32, u32) = match (
        words[22],
        words[23],
        words[24],
    ) {
        (Some(a), Some(b), Some(c)) => (a, b, c),
        _ => {
            return None;
        },
    };
    assert(weapon_words_read(words@)) by {
        assert forall|i: int| 5 <= i <= 14 implies (#[trigger] words@[i]) is Some by {
            assert(i == 5 || i == 6 || i == 7 || i == 8 || i == 9 || i == 10 || i == 11 || i == 12
                || i == 13 || i == 14);
        }
    }
    let weapon = WeaponInfo {
        weapon_id,
        star_level,
        plus_marks,
        awakening_level,
        trait_1_id,
        trait_1_level,
        trait_2_id,
        trait_2_level,
        trait_3_id,
        trait_3_level,
        wrightstone_id,
        weapon_level,
        weapon_hp,
        weapon_attack,
    };
    if weapon.weapon_id != 0 && weapon.weapon_id != INVALID_ID && weapon.star_level <= 6
        && weapon.plus_marks <= 99 && weapon.awakening_level <= 10 && 1 <= weapon.weapon_level
        && weapon.weapon_level <= 150 && weapon.weapon_hp > 0 && weapon.weapon_attack > 0 {
        Some(weapon)
    } else {
        None
    }
}

/// Whether the four words of an overmastery could be read.
pub open spec fn overmastery_read(words: Seq<Option<u32>>, index: int) -> bool {
    words[4 * index] is Some && words[4 * index + 1] is Some && words[4 * index + 2] is Some && words[4
        * index + 3] is Some
}

/// Whether there is nothing in the place of an overmastery.
pub open spec fn overmastery_absent(words: Seq<Option<u32>>, index: int) -> bool {
    words[4 * index]->0 == 0 || words[4 * index]->0 == INVALID_ID
}

/// Whether the words of an overmastery can be right.
pub open spec fn overmastery_plausible(words: Seq<Option<u32>>, index: int) -> bool {
    &&& words[4 * index + 1]->0 <= 0xFFFF
    &&& words[4 * index + 2]->0 <= 0x100
    &&& Float32 { bits: words[4 * index + 3]->0 }.finite()
}

/// The first `count` overmasteries that words of an actor tell; nothing if any of them
/// could not be read or cannot be right.
pub open spec fn first_overmasteries(words: Seq<Option<u32>>, count: nat) -> Option<Seq<Overmastery>>
    decreases count,
{
    if count == 0 {
        Some(Seq::empty())
    } else {
        let index = count - 1;
        match first_overmasteries(words, (count - 1) as nat) {
            Some(before) => if !overmastery_read(words, index) {
                None
            } else if overmastery_absent(words, index) {
                Some(before)
            } else if !overmastery_plausible(words, index) {
                None
            } else {
                Some(
                    before.push(
                        Overmastery {
                            id: words[4 * index]->0,
                            flags: words[4 * index + 1]->0,
                            value: Float32 { bits: words[4 * index + 3]->0 },
                        },
                    ),
                )
            },
            None => None,
        }
    }
}

/// The overmasteries that words of an actor tell, if there are any.
pub open spec fn overmasteries_in(words: Seq<Option<u32>>) -> Option<Seq<Overmastery>> {
    match first_overmasteries(words, 4) {
        Some(all) => if all.len() > 0 {
            Some(all)
        } else {
            None
        },
        None => None,
    }
}

proof fn lemma_no_overmasteries(words: Seq<Option<u32>>, count: nat, more: nat)
    requires
        first_overmasteries(words, count) is None,
        count <= more,
    ensures
        first_overmasteries(words, more) is None,
    decreases more,
{
    if count < more {
        lemma_no_overmasteries(words, count, (more - 1) as nat);
    }
}

/// What optional overmasteries say.
pub open spec fn optional_overmasteries(info: Option<OvermasteryInfo>) -> Option<Seq<Overmastery>> {
    match info {
        Some(info) => Some(info.overmasteries@),
        None => None,
    }
}

/// The overmasteries that words of an actor tell, if there are any and they can be right.
pub fn read_actor_overmasteries(words: &[Option<u32>; OVERMASTERY_WORDS]) -> (info: Option<
    OvermasteryInfo,
>)
    ensures
        optional_overmasteries(info) == overmasteries_in(words@),
{
    let mut overmasteries: Vec<Overmastery> = Vec::new();
    let mut index: usize = 0;
    while index < 4
        invariant
            index <= 4,
            first_overmasteries(words@, index as nat) == Some(overmasteries@),
        decreases 4 - index,
    {
        let (id, flags, parameter_type, value): (u32, u32, u32, Float32) = match (
            words[4 * index],
            words[4 * index + 1],
            words[4 * index + 2],
            words[4 * index + 3],
        ) {
            (Some(id), Some(flags), Some(parameter_type), Some(bits)) => (
                id,
                flags,
                parameter_type,
                Float32::from_bits(bits),
            ),
            _ => {
                proof {
                    assert(!overmastery_read(words@, index as int));
                    assert(first_overmasteries(words@, (index + 1) as nat) is None);
                    lemma_no_overmasteries(words@, (index + 1) as nat, 4);
                }
                return None;
            },
        };
        assert(overmastery_read(words@, index as int));
        if id != 0 && id != INVALID_ID {
            if flags > 0xFFFF || parameter_type > 0x100 || !value.is_finite() {
                proof {
                    assert(first_overmasteries(words@, (index + 1) as nat) is None);
                    lemma_no_overmasteries(words@, (index + 1) as nat, 4);
                }
                return None;
            }
            overmasteries.push(Overmastery { id, flags, value });
        }
        index = index + 1;
    }
    if overmasteries.len() > 0 {
        Some(OvermasteryInfo { overmasteries })
    } else {
        None
    }
}

/// Whether the level, count and notification of a sigil can be right.
pub open spec fn plausible_sigil(level: u32, acquisition_count: u32, notification: u32) -> bool {
    1 <= level <= 15 && acquisition_count <= 1_000_000 && notification <= 2
}

/// Whether the nine words of a sigil can be right.
pub fn valid_sigil_values(values: &[u32; 9]) -> (valid: bool)
    ensures
        valid == plausible_sigil(values@[6], values@[7], values@[8]),
{
    1 <= values[6] && values[6] <= 15 && values[7] <= 1_000_000 && values[8] <= 2
}

/// Whether a slot holds a sigil that can be right.
pub open spec fn is_sigil(entry: SigilEntry) -> bool {
    entry.sigil_id != 0 && entry.sigil_id != INVALID_ID && plausible_sigil(
        entry.sigil_level,
        entry.acquisition_count,
        entry.notification_enum,
    )
}

/// A sigil as it is reported.
pub open spec fn reported_sigil(entry: SigilEntry) -> Sigil {
    Sigil {
        first_trait_id: entry.first_trait_id,
        first_trait_level: entry.first_trait_level,
        second_trait_id: entry.second_trait_id,
        second_trait_level: entry.second_trait_level,
        sigil_id: entry.sigil_id,
        equipped_character: entry.equipped_character,
        sigil_level: entry.sigil_level,
        acquisition_count: entry.acquisition_count,
        notification_enum: entry.notification_enum,
    }
}

/// The sigils in some slots, as they are reported.
pub open spec fn sigils_in(entries: Seq<SigilEntry>) -> Seq<Sigil>
    decreases entries.len(),
{
    if entries.len() == 0 {
        Seq::empty()
    } else {
        let before = sigils_in(entries.drop_last());
        if is_sigil(entries.last()) {
            before.push(reported_sigil(entries.last()))
        } else {
            before
        }
    }
}

/// The sigils in some slots, leaving out empty slots and sigils that cannot be right.
pub fn read_sigils(entries: &[SigilEntry]) -> (sigils: Vec<Sigil>)
    ensures
        sigils@ == sigils_in(entries@),
{
    let mut sigils: Vec<Sigil> = Vec::new();
    let mut i: usize = 0;
    assert(entries@.take(0) == Seq::<SigilEntry>::empty());
    while i < entries.len()
        invariant
            i <= entries.len(),
            sigils@ == sigils_in(entries@.take(i as int)),
        decreases entries.len() - i,
    {
        assert(entries@.take(i + 1).drop_last() == entries@.take(i as int));
        let entry: SigilEntry = entries[i];
        let values: [u32; 9] = [
            entry.first_trait_id,
            entry.first_trait_level,
            entry.second_trait_id,
            entry.second_trait_level,
            entry.sigil_id,
            entry.equipped_character,
            entry.sigil_level,
            entry.acquisition_count,
            entry.notification_enum,
        ];
        if entry.sigil_id != 0 && entry.sigil_id != INVALID_ID && valid_sigil_values(&values) {
            sigils.push(
                Sigil {
                    first_trait_id: entry.first_trait_id,
                    first_trait_level: entry.first_trait_level,
                    second_trait_id: entry.second_trait_id,
                    second_trait_level: entry.second_trait_level,
                    sigil_id: entry.sigil_id,
                    equipped_character: entry.equipped_character,
                    sigil_level: entry.sigil_level,
                    acquisition_count: entry.acquisition_count,
                    notification_enum: entry.notification_enum,
                },
            );
        }
        i = i + 1;
    }
    assert(entries@.take(i as int) == entries@);
    sigils
}

/// The key under which the game data lists a character. A transformation goes with the
/// character it belongs to.
pub open spec fn character_key(character_type: u32) -> Option<Seq<char>> {
    match character_type {
        0x26A4_848A => Some("Pl0000"@),
        0x9498_420D => Some("Pl0100"@),
        0x34D4_FD8F => Some("Pl0200"@),
        0xF8D7_3D33 => Some("Pl0300"@),
        0x7B59_34AD => Some("Pl0400"@),
        0x443D_46BB => Some("Pl0500"@),
        0xA9D6_569E => Some("Pl0600"@),
        0xFBA6_615D => Some("Pl0700"@),
        0x63A7_C3F0 => Some("Pl0800"@),
        0xF96A_90C2 => Some("Pl0900"@),
        0x28AC_1108 => Some("Pl1000"@),
        0x94E2_514E => Some("Pl1100"@),
        0x2B4A_A114 => Some("Pl1200"@),
        0xC97F_3365 => Some("Pl1300"@),
        0x601A_A977 => Some("Pl1400"@),
        0xBCC2_38DE => Some("Pl1500"@),
        0xC315_5079 => Some("Pl1600"@),
        0xD16C_FBDE => Some("Pl1700"@),
        0x6FDD_6932 => Some("Pl1800"@),
        0x8056_ABCD | 0xF575_5C0E => Some("Pl1900"@),
        0x9C89_A455 => Some("Pl2100"@),
        0x59DB_0CD9 => Some("Pl2200"@),
        0xDA5A_8E25 => Some("Pl2300"@),
        0x4C71_4F77 => Some("Pl2400"@),
        0xE330_418F => Some("Pl2500"@),
        0xE3D1_BE26 => Some("Pl2600"@),
        0x9141_8145 => Some("Pl2700"@),
        0x48AD_DA36 => Some("Pl2800"@),
        0x0A58_FB4D => Some("Pl2900"@),
        _ => None,
    }
}

/// The key under which the game data lists a character.
pub fn character_key_for_type(character_type: u32) -> (key: Option<&'static str>)
    ensures
        match key {
            Some(key) => character_key(character_type) == Some(key@),
            None => character_key(character_type) is None,
        },
{
    match character_type {
        0x26A4_848A => Some("Pl0000"),
        0x9498_420D => Some("Pl0100"),
        0x34D4_FD8F => Some("Pl0200"),
        0xF8D7_3D33 => Some("Pl0300"),
        0x7B59_34AD => Some("Pl0400"),
        0x443D_46BB => Some("Pl0500"),
        0xA9D6_569E => Some("Pl0600"),
        0xFBA6_615D => Some("Pl0700"),
        0x63A7_C3F0 => Some("Pl0800"),
        0xF96A_90C2 => Some("Pl0900"),
        0x28AC_1108 => Some("Pl1000"),
        0x94E2_514E => Some("Pl1100"),
        0x2B4A_A114 => Some("Pl1200"),
        0xC97F_3365 => Some("Pl1300"),
        0x601A_A977 => Some("Pl1400"),
        0xBCC2_38DE => Some("Pl1500"),
        0xC315_5079 => Some("Pl1600"),
        0xD16C_FBDE => Some("Pl1700"),
        0x6FDD_6932 => Some("Pl1800"),
        0x8056_ABCD | 0xF575_5C0E => Some("Pl1900"),
        0x9C89_A455 => Some("Pl2100"),
        0x59DB_0CD9 => Some("Pl2200"),
        0xDA5A_8E25 => Some("Pl2300"),
        0x4C71_4F77 => Some("Pl2400"),
        0xE330_418F => Some("Pl2500"),
        0xE3D1_BE26 => Some("Pl2600"),
        0x9141_8145 => Some("Pl2700"),
        0x48AD_DA36 => Some("Pl2800"),
        0x0A58_FB4D => Some("Pl2900"),
        _ => None,
    }
}

/// The master traits of a character: each as its id and the id of its effect.
#[derive(Debug)]
pub struct CharacterEffects {
    pub key: String,
    pub effects: Vec<(u32, u32)>,
}

/// The master traits of all characters.
#[derive(Debug)]
pub struct MasterTraitEffects {
    pub characters: Vec<CharacterEffects>,
}

/// Where the first character with a key is listed; the length if there is none.
pub open spec fn character_position(characters: Seq<CharacterEffects>, key: Seq<char>) -> nat
    decreases characters.len(),
{
    if characters.len() == 0 {
        0
    } else {
        let before = character_position(characters.drop_last(), key);
        if before < characters.len() - 1 || characters.last().key@ == key {
            before
        } else {
            characters.len()
        }
    }
}

proof fn lemma_character_position(characters: Seq<CharacterEffects>, key: Seq<char>, i: nat)
    requires
        i <= characters.len(),
        forall|k: int| 0 <= k < i ==> (#[trigger] characters[k]).key@ != key,
        i < characters.len() ==> characters[i as int].key@ == key,
    ensures
        character_position(characters, key) == i,
    decreases characters.len(),
{
    if characters.len() > 0 {
        let rest = characters.drop_last();
        if i < rest.len() {
            lemma_character_position(rest, key, i);
        } else {
            lemma_character_position(rest, key, rest.len());
        }
    }
}

/// The master traits of a character of the given type, if they are listed.
pub open spec fn effects_of(characters: Seq<CharacterEffects>, character_type: u32) -> Option<
    Seq<(u32, u32)>,
> {
    match character_key(character_type) {
        Some(key) => {
            let position = character_position(characters, key) as int;
            if position < characters.len() {
                Some(characters[position].effects@)
            } else {
                None
            }
        },
        None => None,
    }
}

/// The master trait that has an effect; the last one listed if there are several.
pub open spec fn node_for(effects: Seq<(u32, u32)>, effect: u32) -> Option<u32>
    decreases effects.len(),
{
    if effects.len() == 0 {
        None
    } else if effects.last().1 == effect {
        Some(effects.last().0)
    } else {
        node_for(effects.drop_last(), effect)
    }
}

/// Whether word `i` of `data` is the effect of master trait `node`, and the word behind it
/// says that it is active.
pub open spec fn activates(data: Seq<u8>, effects: Seq<(u32, u32)>, node: u32, i: int) -> bool {
    let effect = word_at(data, 4 * i);
    let active = word_at(data, 4 * i + 4);
    &&& effect is Some
    &&& active is Some
    &&& active->0 != 0
    &&& active->0 != INVALID_ID
    &&& node_for(effects, effect->0) == Some(node)
}

/// Whether one of the first `count` words of `data` activates master trait `node`.
pub open spec fn active_within(data: Seq<u8>, effects: Seq<(u32, u32)>, node: u32, count: int) -> bool {
    exists|i: int| 0 <= i < count && #[trigger] activates(data, effects, node, i)
}

/// `nodes` are the master traits that `data` activates, each once, in ascending order.
pub open spec fn are_active_nodes(data: Seq<u8>, effects: Seq<(u32, u32)>, nodes: Seq<u32>) -> bool {
    &&& forall|a: int, b: int| 0 <= a < b < nodes.len() ==> nodes[a] < nodes[b]
    &&& forall|node: u32| #[trigger]
        nodes.contains(node) <==> active_within(data, effects, node, data.len() as int)
}

/// The master trait that a map gives for an effect.
spec fn mapped(nodes: Map<u32, u32>, effect: u32) -> Option<u32> {
    if nodes.contains_key(effect) {
        Some(nodes[effect])
    } else {
        None
    }
}

/// The master trait of each effect.
fn nodes_by_effect(effects: &[(u32, u32)]) -> (nodes: HashMap<u32, u32>)
    ensures
        forall|effect: u32| #[trigger] mapped(nodes@, effect) == node_for(effects@, effect),
{
    broadcast use vstd::std_specs::hash::group_hash_axioms;

    let mut nodes: HashMap<u32, u32> = HashMap::new();
    let mut i: usize = 0;
    while i < effects.len()
        invariant
            i <= effects.len(),
            forall|effect: u32| #[trigger]
                mapped(nodes@, effect) == node_for(effects@.take(i as int), effect),
        decreases effects.len() - i,
    {
        assert(effects@.take(i + 1).drop_last() == effects@.take(i as int));
        let (node, effect): (u32, u32) = effects[i];
        let ghost before = nodes@;
        nodes.insert(effect, node);
        assert forall|other: u32| #[trigger]
            mapped(nodes@, other) == node_for(effects@.take(i + 1), other) by {
            assert(mapped(before, other) == node_for(effects@.take(i as int), other));
        }
        i = i + 1;
    }
    assert(effects@.take(i as int) == effects@);
    nodes
}

/// Puts a number into its place in an ascending list, unless it is there.
fn insert_sorted(list: &mut Vec<u32>, value: u32)
    requires
        forall|a: int, b: int| 0 <= a < b < old(list)@.len() ==> old(list)@[a] < old(list)@[b],
    ensures
        forall|a: int, b: int| 0 <= a < b < final(list)@.len() ==> final(list)@[a] < final(list)@[b],
        forall|x: u32| #[trigger]
            final(list)@.contains(x) <==> old(list)@.contains(x) || x == value,
{
    let ghost before = list@;
    let mut at: usize = 0;
    while at < list.len() && list[at] < value
        invariant
            at <= list.len(),
            list@ == before,
            forall|k: int| 0 <= k < at ==> before[k] < value,
        decreases list.len() - at,
    {
        at = at + 1;
    }
    if at < list.len() && list[at] == value {
        assert(before[at as int] == value);
        return;
    }
    list.insert(at, value);
    proof {
        let after = list@;
        assert(after == before.insert(at as int, value));
        assert forall|x: u32| #[trigger] after.contains(x) <==> before.contains(x) || x == value by {
            if before.contains(x) {
                let k = choose|k: int| 0 <= k < before.len() && before[k] == x;
                if k < at {
                    assert(after[k] == x);
                } else {
                    assert(after[k + 1] == x);
                }
            }
            if x == value {
                assert(after[at as int] == x);
            }
            if after.contains(x) && x != value {
                let k = choose|k: int| 0 <= k < after.len() && after[k] == x;
                if k < at {
                    assert(before[k] == x);
                } else {
                    assert(before[k - 1] == x);
                }
            }
        }
        assert forall|a: int, b: int| 0 <= a < b < after.len() implies after[a] < after[b] by {
            if b < at {
                assert(before[a] < before[b]);
            } else if a > at {
                assert(before[a - 1] < before[b - 1]);
            } else if a < at && b > at {
                assert(before[a] < before[b - 1]);
            } else if a == at {
                assert(before[at as int] <= before[b - 1]);
            }
        }
    }
}

/// The master traits that `data` activates, each once, in ascending order.
pub fn selected_master_trait_nodes(data: &[u8], effects: &[(u32, u32)]) -> (selected: Vec<u32>)
    ensures
        are_active_nodes(data@, effects@, selected@),
{
    broadcast use vstd::std_specs::hash::group_hash_axioms;

    let nodes: HashMap<u32, u32> = nodes_by_effect(effects);
    let len: usize = data.len();
    let count: usize = len / 4;
    let mut selected: Vec<u32> = Vec::new();
    let mut i: usize = 0;
    while i < count
        invariant
            i <= count,
            len == data@.len(),
            count == len / 4,
            forall|effect: u32| #[trigger] mapped(nodes@, effect) == node_for(effects@, effect),
            forall|a: int, b: int| 0 <= a < b < selected@.len() ==> selected@[a] < selected@[b],
            forall|node: u32| #[trigger]
                selected@.contains(node) <==> active_within(data@, effects@, node, i as int),
        decreases count - i,
    {
        let ghost before = selected@;
        if i + 1 < count {
            if let (Some(effect), Some(active)) = (read_u32(data, 4 * i), read_u32(data, 4 * i + 4)) {
                if active != 0 && active != INVALID_ID {
                    assert(mapped(nodes@, effect) == node_for(effects@, effect));
                    if let Some(node) = nodes.get(&effect) {
                        assert(activates(data@, effects@, *node, i as int));
                        insert_sorted(&mut selected, *node);
                    }
                }
            }
        }
        assert forall|node: u32| #[trigger]
            selected@.contains(node) <==> active_within(data@, effects@, node, i + 1) by {
            assert(before.contains(node) <==> active_within(data@, effects@, node, i as int));
            if active_within(data@, effects@, node, i as int) {
                let k = choose|k: int|
                    0 <= k < i && #[trigger] activates(data@, effects@, node, k);
                assert(activates(data@, effects@, node, k));
            }
        }
        i = i + 1;
    }
    proof {
        assert forall|node: u32| #[trigger]
            selected@.contains(node) <==> active_within(data@, effects@, node, data@.len() as int) by {
            if active_within(data@, effects@, node, data@.len() as int) {
                let k = choose|k: int|
                    0 <= k < data@.len() && #[trigger] activates(data@, effects@, node, k);
                assert(k < count);
                assert(activates(data@, effects@, node, k));
            }
            if active_within(data@, effects@, node, count as int) {
                let k = choose|k: int|
                    0 <= k < count && #[trigger] activates(data@, effects@, node, k);
                assert(activates(data@, effects@, node, k));
            }
        }
    }
    selected
}

/// Whether `nodes` are the master traits of an actor: nothing if its character is not
/// listed or it could not be read, else those that are active.
pub open spec fn are_master_traits(
    data: Option<Vec<u8>>,
    character_type: u32,
    characters: Seq<CharacterEffects>,
    nodes: Option<Vec<u32>>,
) -> bool {
    match effects_of(characters, character_type) {
        Some(effects) => match data {
            Some(data) => nodes matches Some(nodes) && are_active_nodes(data@, effects, nodes@),
            None => nodes is None,
        },
        None => nodes is None,
    }
}

/// The master traits of an actor.
pub fn read_actor_master_traits(
    data: &Option<Vec<u8>>,
    character_type: u32,
    effects: &MasterTraitEffects,
) -> (nodes: Option<Vec<u32>>)
    ensures
        are_master_traits(*data, character_type, effects.characters@, nodes),
{
    let key: String = match character_key_for_type(character_type) {
        Some(key) => key.to_owned(),
        None => {
            return None;
        },
    };
    let mut i: usize = 0;
    while i < effects.characters.len() && !(effects.characters[i].key == key)
        invariant
            i <= effects.characters.len(),
            forall|k: int|
                0 <= k < i ==> (#[trigger] effects.characters@[k]).key@ != key@,
        decreases effects.characters.len() - i,
    {
        i = i + 1;
    }
    proof {
        lemma_character_position(effects.characters@, key@, i as nat);
    }
    if i < effects.characters.len() {
        match data {
            Some(data) => Some(
                selected_master_trait_nodes(
                    data.as_slice(),
                    effects.characters[i].effects.as_slice(),
                ),
            ),
            None => None,
        }
    } else {
        None
    }
}

/// A key is listed exactly for the types of the playable characters.
pub proof fn law_keys_are_playable(character_type: u32)
    ensures
        character_key(character_type) is Some <==> !(character_of(character_type) is Unknown),
{
}

} // verus!
