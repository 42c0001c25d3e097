//! What is read of the equipment of an actor, and where the game keeps what is read.

use vstd::arithmetic::power2::pow2;
use vstd::prelude::*;

use crate::constants::{character_of, CharacterType};
use crate::float32::{law_constants, Float32};
use crate::hooks::equipment::{
    activates, are_active_nodes, character_key, character_position, effects_of, first_overmasteries,
    node_for, overmasteries_in, sigils_in, stats_in, weapon_in, CharacterEffects,
};
use crate::hooks::ffi::{
    damage_instance_in, overmastery_at, player_stats_in, quest_state_in, sigil_entry_at, vbuffer_at,
    weapon_info_in, SigilEntry, SigilList, TextPlace,
};
use crate::protocol::{Overmastery, Sigil, WeaponInfo};
use crate::save_file::holds_word;

verus! {

/// A hit is read from 0x2C0 bytes or more: the damage, the flags, the stun value, the action
/// and the cap each from its place.
pub proof fn law_hits_are_read(
    bytes: Seq<u8>,
    damage: u32,
    low: u32,
    high: u32,
    stun: u32,
    action: u32,
    cap: u32,
)
    requires
        holds_word(bytes, 0xD4, damage),
        holds_word(bytes, 0xE8, low),
        holds_word(bytes, 0xEC, high),
        holds_word(bytes, 0xF4, stun),
        holds_word(bytes, 0x16C, action),
        holds_word(bytes, 0x2BC, cap),
    ensures
        damage_instance_in(bytes) matches Some(hit) && {
            &&& damage == (if hit.damage < 0 {
                hit.damage + 0x1_0000_0000
            } else {
                hit.damage as int
            })
            &&& hit.flags == low + high * 0x1_0000_0000
            &&& hit.stun_value.bits == stun
            &&& hit.action_id == action
            &&& cap == (if hit.damage_cap < 0 {
                hit.damage_cap + 0x1_0000_0000
            } else {
                hit.damage_cap as int
            })
        },
{
}

/// No hit is read from fewer bytes.
pub proof fn law_short_hits_are_not_read(bytes: Seq<u8>)
    ensures
        damage_instance_in(bytes) is None <==> bytes.len() < 0x2C0,
        quest_state_in(bytes) is None <==> bytes.len() < 0x650,
        player_stats_in(bytes) is None <==> bytes.len() < 28,
        weapon_info_in(bytes) is None <==> bytes.len() < 100,
{
}

/// The state of a quest starts with its id, and holds its time far behind.
pub proof fn law_quest_states_are_read(bytes: Seq<u8>, quest_id: u32, elapsed: u32)
    requires
        holds_word(bytes, 0, quest_id),
        holds_word(bytes, 0x64C, elapsed),
    ensures
        quest_state_in(bytes) matches Some(state) && state.quest_id == quest_id
            && state.elapsed_time == elapsed,
{
}

/// A sigil is nine words, one behind the other.
pub proof fn law_sigil_entries_are_read(bytes: Seq<u8>, at: int, words: Seq<u32>)
    requires
        words.len() == 9,
        forall|i: int| 0 <= i < 9 ==> holds_word(bytes, at + 4 * i, #[trigger] words[i]),
    ensures
        ({
            let entry = sigil_entry_at(bytes, at);
            &&& entry.first_trait_id == words[0]
            &&& entry.first_trait_level == words[1]
            &&& entry.second_trait_id == words[2]
            &&& entry.second_trait_level == words[3]
            &&& entry.sigil_id == words[4]
            &&& entry.equipped_character == words[5]
            &&& entry.sigil_level == words[6]
            &&& entry.acquisition_count == words[7]
            &&& entry.notification_enum == words[8]
        }),
{
}

/// A list of sigils is twelve of them, and behind them who plays: whether online, the name of
/// the character, the name to display, and the party slot.
pub proof fn law_sigil_lists_are_laid_out(
    list: SigilList,
    bytes: Seq<u8>,
    i: int,
    online: u32,
    party: u32,
)
    requires
        list.read_from(bytes),
        0 <= i < 12,
        holds_word(bytes, 0x1C8, online),
        holds_word(bytes, 0x22C, party),
    ensures
        list.sigils@[i] == sigil_entry_at(bytes, 36 * i),
        list.is_online == online,
        list.character_name == vbuffer_at(bytes, 0x1E8),
        list.display_name == vbuffer_at(bytes, 0x208),
        list.party_index == party,
{
}

/// The head of a text buffer is four long words: the text or where it is, then how much of it
/// is used, and how much there is room for. Up to fifteen bytes stand in the head itself.
pub proof fn law_text_buffers_are_read(
    bytes: Seq<u8>,
    at: int,
    low: u32,
    high: u32,
    used: u32,
    room: u32,
)
    requires
        holds_word(bytes, at, low),
        holds_word(bytes, at + 4, high),
        holds_word(bytes, at + 16, used),
        holds_word(bytes, at + 20, 0),
        holds_word(bytes, at + 24, room),
        holds_word(bytes, at + 28, 0),
    ensures
        ({
            let buffer = vbuffer_at(bytes, at);
            &&& buffer.used_size == used
            &&& buffer.max_size == room
            &&& room < 16 ==> buffer.place() is Inline
            &&& room >= 16 ==> (buffer.place() matches TextPlace::At(address) && address == low + high
                * 0x1_0000_0000)
        }),
{
}

/// The stats of a player are seven words, the fourth of which means nothing.
pub proof fn law_stats_are_laid_out(bytes: Seq<u8>, words: Seq<u32>)
    requires
        words.len() == 7,
        forall|i: int| 0 <= i < 7 ==> holds_word(bytes, 4 * i, #[trigger] words[i]),
    ensures
        player_stats_in(bytes) matches Some(stats) && {
            &&& stats.level == words[0]
            &&& stats.total_health == words[1]
            &&& stats.total_attack == words[2]
            &&& stats.stun_power.bits == words[4]
            &&& stats.critical_rate.bits == words[5]
            &&& stats.total_power == words[6]
        },
{
    assert(holds_word(bytes, 24, words[6]));
}

/// A weapon is 25 words, of which sixteen mean something.
pub proof fn law_weapons_are_laid_out(bytes: Seq<u8>, words: Seq<u32>)
    requires
        words.len() == 25,
        forall|i: int| 0 <= i < 25 ==> holds_word(bytes, 4 * i, #[trigger] words[i]),
    ensures
        weapon_info_in(bytes) matches Some(weapon) && {
            &&& weapon.weapon_id == words[1]
            &&& weapon.weapon_ap_tree == words[2]
            &&& weapon.weapon_exp == words[4]
            &&& weapon.star_level == words[5]
            &&& weapon.plus_marks == words[6]
            &&& weapon.awakening_level == words[7]
            &&& weapon.trait_1_id == words[8]
            &&& weapon.trait_1_level == words[9]
            &&& weapon.trait_2_id == words[10]
            &&& weapon.trait_2_level == words[11]
            &&& weapon.trait_3_id == words[12]
            &&& weapon.trait_3_level == words[13]
            &&& weapon.wrightstone_id == words[14]
            &&& weapon.weapon_level == words[22]
            &&& weapon.weapon_hp == words[23]
            &&& weapon.weapon_attack == words[24]
        },
{
    assert(holds_word(bytes, 96, words[24]));
}

/// An overmastery is four words: what it is, its flags, one that means nothing, its value.
pub proof fn law_overmasteries_are_laid_out(bytes: Seq<u8>, at: int, id: u32, flags: u32, value: u32)
    requires
        holds_word(bytes, at, id),
        holds_word(bytes, at + 4, flags),
        holds_word(bytes, at + 12, value),
    ensures
        overmastery_at(bytes, at).id == id,
        overmastery_at(bytes, at).flags == flags,
        overmastery_at(bytes, at).value.bits == value,
{
}

/// Whether a value is a number from zero to a whole number.
pub open spec fn is_up_to(value: Float32, most: int) -> bool {
    value.finite() && 0 <= value.units() <= most * pow2(149)
}

/// The stats of a player are told as they were read, if they all were and can be right: a
/// level up to a hundred, health, attack and power, and a stun power and critical rate that
/// make sense.
pub proof fn law_stats_are_told(words: Seq<Option<u32>>)
    requires
        words.len() == 7,
    ensures
        stats_in(words) matches Some(stats) ==> {
            &&& words[0] == Some(stats.level)
            &&& words[1] == Some(stats.total_hp)
            &&& words[2] == Some(stats.total_attack)
            &&& words[4] == Some(stats.stun_power.bits)
            &&& words[5] == Some(stats.critical_rate.bits)
            &&& words[6] == Some(stats.total_power)
        },
        stats_in(words) is Some <==> {
            &&& words[0] matches Some(level) && 1 <= level <= 100
            &&& words[1] matches Some(health) && health > 0
            &&& words[2] matches Some(attack) && attack > 0
            &&& words[4] matches Some(bits) && is_up_to(Float32 { bits }, 1_000_000)
            &&& words[5] matches Some(bits) && is_up_to(Float32 { bits }, 10_000)
            &&& words[6] matches Some(power) && power > 0
        },
{
    law_constants();
}

/// Whether a weapon has what a weapon can have.
pub open spec fn can_be_a_weapon(weapon: WeaponInfo) -> bool {
    &&& weapon.weapon_id != 0
    &&& weapon.weapon_id != 0x887A_E0B0
    &&& weapon.star_level < 7
    &&& weapon.plus_marks < 100
    &&& weapon.awakening_level < 11
    &&& 0 < weapon.weapon_level < 151
    &&& weapon.weapon_hp > 0
    &&& weapon.weapon_attack > 0
}

/// Whether the words of an actor spell a weapon.
pub open spec fn spells_weapon(words: Seq<Option<u32>>, weapon: WeaponInfo) -> bool {
    &&& words[1] == Some(weapon.weapon_id)
    &&& words[5] == Some(weapon.star_level)
    &&& words[6] == Some(weapon.plus_marks)
    &&& words[7] == Some(weapon.awakening_level)
    &&& words[8] == Some(weapon.trait_1_id)
    &&& words[9] == Some(weapon.trait_1_level)
    &&& words[10] == Some(weapon.trait_2_id)
    &&& words[11] == Some(weapon.trait_2_level)
    &&& words[12] == Some(weapon.trait_3_id)
    &&& words[13] == Some(weapon.trait_3_level)
    &&& words[14] == Some(weapon.wrightstone_id)
    &&& words[22] == Some(weapon.weapon_level)
    &&& words[23] == Some(weapon.weapon_hp)
    &&& words[24] == Some(weapon.weapon_attack)
}

/// A weapon is told as it was read, if all of it was and it can be one.
pub proof fn law_weapons_are_told(words: Seq<Option<u32>>, weapon: WeaponInfo)
    requires
        words.len() == 25,
    ensures
        weapon_in(words) == Some(weapon) <==> spells_weapon(words, weapon) && can_be_a_weapon(weapon),
{
    if spells_weapon(words, weapon) && can_be_a_weapon(weapon) {
        assert forall|i: int| 5 <= i <= 14 implies (#[trigger] words[i]) is Some by {}
    }
    if weapon_in(words) == Some(weapon) {
        assert(words[5] is Some);
        assert(words[6] is Some);
        assert(words[7] is Some);
        assert(words[8] is Some);
        assert(words[9] is Some);
        assert(words[10] is Some);
        assert(words[11] is Some);
        assert(words[12] is Some);
        assert(words[13] is Some);
        assert(words[14] is Some);
    }
}

/// Whether the place of an overmastery was read, and holds nothing.
pub open spec fn holds_no_overmastery(words: Seq<Option<u32>>, i: int) -> bool {
    &&& words[4 * i] == Some(0u32) || words[4 * i] == Some(0x887A_E0B0u32)
    &&& words[4 * i + 1] is Some
    &&& words[4 * i + 2] is Some
    &&& words[4 * i + 3] is Some
}

/// Whether the place of an overmastery was read, and holds one that can be right.
pub open spec fn holds_overmastery(words: Seq<Option<u32>>, i: int) -> bool {
    &&& words[4 * i] matches Some(id) && id != 0 && id != 0x887A_E0B0
    &&& words[4 * i + 1] matches Some(flags) && flags < 0x1_0000
    &&& words[4 * i + 2] matches Some(kind) && kind < 0x101
    &&& words[4 * i + 3] matches Some(bits) && (Float32 { bits }).finite()
}

/// Whether the place of an overmastery holds this one.
pub open spec fn spells_overmastery(words: Seq<Option<u32>>, i: int, entry: Overmastery) -> bool {
    &&& words[4 * i] == Some(entry.id)
    &&& words[4 * i + 1] == Some(entry.flags)
    &&& words[4 * i + 3] == Some(entry.value.bits)
}

/// Whether the first `count` places of overmasteries are sound.
pub open spec fn sound_places(words: Seq<Option<u32>>, count: int) -> bool {
    forall|i: int| #![trigger words[4 * i]]
        0 <= i < count ==> holds_no_overmastery(words, i) || holds_overmastery(words, i)
}

/// Whether `found` lists the overmasteries of the first `count` places, which stand at the
/// places `at`, in their order.
pub open spec fn lists_overmasteries(
    words: Seq<Option<u32>>,
    count: int,
    found: Seq<Overmastery>,
    at: Seq<int>,
) -> bool {
    &&& at.len() == found.len()
    &&& forall|k: int|
        0 <= k < at.len() ==> 0 <= #[trigger] at[k] < count && holds_overmastery(words, at[k])
            && spells_overmastery(words, at[k], found[k])
    &&& forall|j: int, k: int| 0 <= j < k < at.len() ==> #[trigger] at[j] < #[trigger] at[k]
    &&& forall|i: int| 0 <= i < count && #[trigger] holds_overmastery(words, i) ==> at.contains(i)
}

proof fn lemma_overmasteries(words: Seq<Option<u32>>, count: nat) -> (at: Seq<int>)
    ensures
        first_overmasteries(words, count) is Some <==> sound_places(words, count as int),
        first_overmasteries(words, count) matches Some(found) ==> lists_overmasteries(
            words,
            count as int,
            found,
            at,
        ),
    decreases count,
{
    if count == 0 {
        assert(first_overmasteries(words, 0) == Some(Seq::<Overmastery>::empty()));
        Seq::empty()
    } else {
        let last = count - 1;
        let before = lemma_overmasteries(words, (count - 1) as nat);
        if sound_places(words, count as int) {
            assert(sound_places(words, last));
            assert(words[4 * last] == words[4 * last]);
        }
        if sound_places(words, last) && (holds_no_overmastery(words, last) || holds_overmastery(
            words,
            last,
        )) {
            assert(sound_places(words, count as int));
        }
        if holds_overmastery(words, last) {
            let at = before.push(last);
            if let Some(found) = first_overmasteries(words, count) {
                let earlier = first_overmasteries(words, (count - 1) as nat)->0;
                assert(found.drop_last() == earlier);
                assert forall|i: int|
                    0 <= i < count && #[trigger] holds_overmastery(words, i) implies at.contains(
                    i,
                ) by {
                    if i == last {
                        assert(at[before.len() as int] == last);
                    } else {
                        let k = choose|k: int| 0 <= k < before.len() && before[k] == i;
                        assert(at[k] == i);
                    }
                }
                assert(lists_overmasteries(words, count as int, found, at));
            }
            at
        } else {
            before
        }
    }
}

/// The overmasteries of an actor are those of its four places, in their order. There are none
/// if all places are empty, or any could not be read or cannot be right. The third word of an
/// overmastery is not told.
pub proof fn law_overmasteries_are_told(words: Seq<Option<u32>>) -> (at: Seq<int>)
    requires
        words.len() == 16,
    ensures
        overmasteries_in(words) matches Some(found) ==> found.len() > 0 && sound_places(words, 4)
            && lists_overmasteries(words, 4, found, at),
        overmasteries_in(words) is None ==> !sound_places(words, 4) || (forall|i: int|
            0 <= i < 4 ==> !#[trigger] holds_overmastery(words, i)),
{
    let at = lemma_overmasteries(words, 4);
    if let Some(found) = first_overmasteries(words, 4) {
        if found.len() == 0 {
            assert forall|i: int| 0 <= i < 4 implies !#[trigger] holds_overmastery(words, i) by {
                if holds_overmastery(words, i) {
                    assert(at.contains(i));
                }
            }
        }
    }
    at
}

/// Whether a slot holds a sigil: it has an id, a level up to fifteen, and was obtained and
/// announced as often as can be.
pub open spec fn holds_sigil(entry: SigilEntry) -> bool {
    &&& entry.sigil_id != 0
    &&& entry.sigil_id != 0x887A_E0B0
    &&& 0 < entry.sigil_level < 16
    &&& entry.acquisition_count < 1_000_001
    &&& entry.notification_enum < 3
}

/// Whether a sigil is told as it stands in its slot.
pub open spec fn told_as(sigil: Sigil, entry: SigilEntry) -> bool {
    &&& sigil.first_trait_id == entry.first_trait_id
    &&& sigil.first_trait_level == entry.first_trait_level
    &&& sigil.second_trait_id == entry.second_trait_id
    &&& sigil.second_trait_level == entry.second_trait_level
    &&& sigil.sigil_id == entry.sigil_id
    &&& sigil.equipped_character == entry.equipped_character
    &&& sigil.sigil_level == entry.sigil_level
    &&& sigil.acquisition_count == entry.acquisition_count
    &&& sigil.notification_enum == entry.notification_enum
}

/// The sigils of a player are those in its slots, in their order; `at` says in which slot
/// each of them is.
pub proof fn law_slots_hold_sigils(entries: Seq<SigilEntry>) -> (at: Seq<int>)
    ensures
        at.len() == sigils_in(entries).len(),
        forall|k: int|
            0 <= k < at.len() ==> 0 <= #[trigger] at[k] < entries.len() && holds_sigil(entries[at[k]])
                && told_as(sigils_in(entries)[k], entries[at[k]]),
        forall|j: int, k: int| 0 <= j < k < at.len() ==> #[trigger] at[j] < #[trigger] at[k],
        forall|i: int|
            0 <= i < entries.len() && holds_sigil(#[trigger] entries[i]) ==> at.contains(i),
    decreases entries.len(),
{
    if entries.len() == 0 {
        Seq::empty()
    } else {
        let last = entries.len() - 1;
        let before = law_slots_hold_sigils(entries.drop_last());
        if holds_sigil(entries[last]) {
            let at = before.push(last);
            assert(sigils_in(entries).drop_last() == sigils_in(entries.drop_last()));
            assert forall|i: int|
                0 <= i < entries.len() && holds_sigil(#[trigger] entries[i]) implies at.contains(
                i,
            ) by {
                if i == last {
                    assert(at[before.len() as int] == last);
                } else {
                    assert(entries.drop_last()[i] == entries[i]);
                    assert(before.contains(i));
                    let k = choose|k: int| 0 <= k < before.len() && before[k] == i;
                    assert(at[k] == i);
                }
            }
            assert forall|k: int| 0 <= k < at.len() implies 0 <= #[trigger] at[k] < entries.len()
                && holds_sigil(entries[at[k]]) && told_as(sigils_in(entries)[k], entries[at[k]]) by {
                if k < before.len() {
                    assert(at[k] == before[k]);
                    assert(sigils_in(entries)[k] == sigils_in(entries.drop_last())[k]);
                }
            }
            at
        } else {
            assert forall|i: int|
                0 <= i < entries.len() && holds_sigil(#[trigger] entries[i]) implies before.contains(
                i,
            ) by {
                assert(entries.drop_last()[i] == entries[i]);
            }
            before
        }
    }
}

/// The key of a character in the game data is its name; that of the second form of the one
/// that transforms is the name of the first.
pub open spec fn name_of(character: CharacterType) -> Option<Seq<char>> {
    match character {
        CharacterType::Pl0000 => Some("Pl0000"@),
        CharacterType::Pl0100 => Some("Pl0100"@),
        CharacterType::Pl0200 => Some("Pl0200"@),
        CharacterType::Pl0300 => Some("Pl0300"@),
        CharacterType::Pl0400 => Some("Pl0400"@),
        CharacterType::Pl0500 => Some("Pl0500"@),
        CharacterType::Pl0600 => Some("Pl0600"@),
        CharacterType::Pl0700 => Some("Pl0700"@),
        CharacterType::Pl0800 => Some("Pl0800"@),
        CharacterType::Pl0900 => Some("Pl0900"@),
        CharacterType::Pl1000 => Some("Pl1000"@),
        CharacterType::Pl1100 => Some("Pl1100"@),
        CharacterType::Pl1200 => Some("Pl1200"@),
        CharacterType::Pl1300 => Some("Pl1300"@),
        CharacterType::Pl1400 => Some("Pl1400"@),
        CharacterType::Pl1500 => Some("Pl1500"@),
        CharacterType::Pl1600 => Some("Pl1600"@),
        CharacterType::Pl1700 => Some("Pl1700"@),
        CharacterType::Pl1800 => Some("Pl1800"@),
        CharacterType::Pl1900 | CharacterType::Pl2000 => Some("Pl1900"@),
        CharacterType::Pl2100 => Some("Pl2100"@),
        CharacterType::Pl2200 => Some("Pl2200"@),
        CharacterType::Pl2300 => Some("Pl2300"@),
        CharacterType::Pl2400 => Some("Pl2400"@),
        CharacterType::Pl2500 => Some("Pl2500"@),
        CharacterType::Pl2600 => Some("Pl2600"@),
        CharacterType::Pl2700 => Some("Pl2700"@),
        CharacterType::Pl2800 => Some("Pl2800"@),
        CharacterType::Pl2900 => Some("Pl2900"@),
        CharacterType::Unknown(_) => None,
    }
}

/// The game data lists a character under its name.
pub proof fn law_keys_are_names(character_type: u32)
    ensures
        character_key(character_type) == name_of(character_of(character_type)),
{
}

/// The master traits of a character are those that are listed first under its key.
pub proof fn law_effects_are_listed(characters: Seq<CharacterEffects>, character_type: u32, i: int)
    requires
        0 <= i < characters.len(),
        character_key(character_type) == Some(characters[i].key@),
        forall|k: int| 0 <= k < i ==> (#[trigger] characters[k]).key@ != characters[i].key@,
    ensures
        effects_of(characters, character_type) == Some(characters[i].effects@),
{
    lemma_listed_first(characters, characters[i].key@, i);
}

proof fn lemma_listed_first(characters: Seq<CharacterEffects>, key: Seq<char>, i: int)
    requires
        0 <= i <= characters.len(),
        forall|k: int| 0 <= k < i ==> (#[trigger] characters[k]).key@ != key,
        i < characters.len() ==> characters[i].key@ == key,
    ensures
        character_position(characters, key) == i,
    decreases characters.len(),
{
    if characters.len() > 0 {
        let rest = characters.drop_last();
        if i < rest.len() {
            lemma_listed_first(rest, key, i);
        } else {
            lemma_listed_first(rest, key, rest.len() as int);
        }
    }
}

/// A character that is not listed has no master traits.
pub proof fn law_unlisted_characters_have_no_effects(
    characters: Seq<CharacterEffects>,
    character_type: u32,
)
    requires
        forall|k: int|
            0 <= k < characters.len() ==> character_key(character_type) != Some(
                (#[trigger] characters[k]).key@,
            ),
    ensures
        effects_of(characters, character_type) is None,
{
    if let Some(key) = character_key(character_type) {
        lemma_listed_first(characters, key, characters.len() as int);
    }
}

/// Whether row `r` is the last that gives an effect a master trait.
pub open spec fn is_last_row(effects: Seq<(u32, u32)>, effect: u32, r: int) -> bool {
    &&& 0 <= r < effects.len()
    &&& effects[r].1 == effect
    &&& forall|k: int| r < k < effects.len() ==> (#[trigger] effects[k]).1 != effect
}

/// An effect belongs to the master trait of the last row that lists it.
pub proof fn law_last_effect_counts(effects: Seq<(u32, u32)>, effect: u32) -> (r: int)
    ensures
        node_for(effects, effect) matches Some(node) ==> is_last_row(effects, effect, r)
            && effects[r].0 == node,
        node_for(effects, effect) is None ==> (forall|k: int|
            0 <= k < effects.len() ==> (#[trigger] effects[k]).1 != effect),
    decreases effects.len(),
{
    if effects.len() == 0 {
        0
    } else if effects.last().1 == effect {
        effects.len() - 1
    } else {
        let rest = effects.drop_last();
        let r = law_last_effect_counts(rest, effect);
        assert forall|k: int| 0 <= k < rest.len() implies (#[trigger] effects[k]) == rest[k] by {}
        r
    }
}

/// Whether an effect stands at a place of an actor, with a word behind it that says it is
/// active.
pub open spec fn effect_is_on(data: Seq<u8>, place: int, effect: u32, active: u32) -> bool {
    &&& 0 <= place
    &&& holds_word(data, 4 * place, effect)
    &&& holds_word(data, 4 * place + 4, active)
    &&& active != 0
    &&& active != 0x887A_E0B0
}

/// A master trait is active exactly if one of its effects stands active somewhere in the
/// actor. Each is told once, the smallest first.
pub proof fn law_active_traits_are_told(
    data: Seq<u8>,
    effects: Seq<(u32, u32)>,
    nodes: Seq<u32>,
    place: int,
    effect: u32,
    active: u32,
    r: int,
)
    requires
        are_active_nodes(data, effects, nodes),
    ensures
        effect_is_on(data, place, effect, active) && is_last_row(effects, effect, r)
            ==> nodes.contains(effects[r].0),
        forall|a: int, b: int| 0 <= a < b < nodes.len() ==> nodes[a] < nodes[b],
{
    if effect_is_on(data, place, effect, active) && is_last_row(effects, effect, r) {
        let found = law_last_effect_counts(effects, effect);
        assert(effects[r].1 == effect && effects[found].1 == effect);
        assert(found == r);
        assert(activates(data, effects, effects[r].0, place));
        assert(nodes.contains(effects[r].0));
    }
}

/// A master trait that is told stands active somewhere: the place, its effect, the word that
/// says so, and the row that gives the effect to it.
pub proof fn law_told_traits_are_active(
    data: Seq<u8>,
    effects: Seq<(u32, u32)>,
    nodes: Seq<u32>,
    k: int,
) -> (found: (int, u32, u32, int))
    requires
        are_active_nodes(data, effects, nodes),
        0 <= k < nodes.len(),
    ensures
        effect_is_on(data, found.0, found.1, found.2),
        is_last_row(effects, found.1, found.3),
        effects[found.3].0 == nodes[k],
{
    assert(nodes.contains(nodes[k]));
    let place = choose|i: int|
        0 <= i < data.len() && #[trigger] activates(data, effects, nodes[k], i);
    let effect = crate::bytes::word_at(data, 4 * place)->0;
    let active = crate::bytes::word_at(data, 4 * place + 4)->0;
    (place, effect, active, law_last_effect_counts(effects, effect))
}

} // verus!
