//! What a save file says, told from the bytes at their places.

use vstd::prelude::*;

use crate::bytes::{long_at, signed, word_at};
use crate::encounter::Sigil;
use crate::master_traits::{
    build_in, first_saved_unit, is_current, is_first_unit, is_newest, is_refreshed, is_sigil_type,
    is_weapon_type, level_of, party_unit, places, saved_build, saved_sigil, saved_sigil_list,
    saved_sigils, saved_value, saved_weapon, sigil_list_at, sigil_list_in, traits_in, unit_at,
    value_in, values_at, CachedBuilds, GameTables, SigilTraitRow,
};

verus! {

/// Whether the four bytes at `at` make up `word`, the lowest first.
pub open spec fn holds_word(bytes: Seq<u8>, at: int, word: u32) -> bool {
    &&& 0 <= at
    &&& at + 4 <= bytes.len()
    &&& word == bytes[at] + bytes[at + 1] * 256 + bytes[at + 2] * 65_536 + bytes[at + 3]
        * 16_777_216
}

/// Words are read from four bytes, the lowest first, and not beyond the end.
pub proof fn law_words_are_little_endian(bytes: Seq<u8>, at: int, word: u32)
    ensures
        word_at(bytes, at) == Some(word) <==> holds_word(bytes, at, word),
        word_at(bytes, at) is None <==> at < 0 || at + 4 > bytes.len(),
{
}

/// Long words are two words, the lower first; signed words wrap at the top.
pub proof fn law_longer_words(bytes: Seq<u8>, at: int, low: u32, high: u32)
    ensures
        holds_word(bytes, at, low) && holds_word(bytes, at + 4, high) ==> long_at(bytes, at) is Some
            && long_at(bytes, at)->0 == low + high * 0x1_0000_0000,
        0 <= at && at + 8 > bytes.len() ==> long_at(bytes, at) is None,
        low < 0x8000_0000 ==> signed(low) == low,
        low >= 0x8000_0000 ==> signed(low) == low - 0x1_0000_0000,
{
}

/// Whether the header of a unit stands at place `k`: its type, its id, the number four and how
/// many values follow.
pub open spec fn stands(bytes: Seq<u8>, k: int, id_type: u32, unit_id: u32, count: u32) -> bool {
    &&& 0 <= k
    &&& holds_word(bytes, 4 * k, id_type)
    &&& holds_word(bytes, 4 * k + 4, unit_id)
    &&& holds_word(bytes, 4 * k + 8, 4)
    &&& holds_word(bytes, 4 * k + 12, count)
}

/// Whether a unit with one value stands at place `k`, value included.
pub open spec fn stands_single(bytes: Seq<u8>, k: int, id_type: u32, unit_id: u32) -> bool {
    stands(bytes, k, id_type, unit_id, 1) && 4 * k + 20 <= bytes.len()
}

proof fn lemma_stands(bytes: Seq<u8>, k: int, id_type: u32, unit_id: u32, count: u32)
    requires
        0 <= k,
    ensures
        stands(bytes, k, id_type, unit_id, count) == unit_at(bytes, 4 * k, id_type, unit_id, count),
{
    law_words_are_little_endian(bytes, 4 * k, id_type);
    law_words_are_little_endian(bytes, 4 * k + 4, unit_id);
    law_words_are_little_endian(bytes, 4 * k + 8, 4);
    law_words_are_little_endian(bytes, 4 * k + 12, count);
}

proof fn lemma_value_in(bytes: Seq<u8>, id_type: u32, unit_id: u32, n: nat) -> (at: int)
    requires
        n <= places(bytes.len(), 4),
    ensures
        match value_in(bytes, id_type, unit_id, n) {
            Some(value) => 0 <= at < n && stands_single(bytes, at, id_type, unit_id) && holds_word(
                bytes,
                4 * at + 16,
                value,
            ) && forall|k: int| at < k < n ==> !#[trigger] stands_single(bytes, k, id_type, unit_id),
            None => forall|k: int| 0 <= k < n ==> !#[trigger]
                stands_single(bytes, k, id_type, unit_id),
        },
    decreases n,
{
    if n == 0 {
        0
    } else {
        let at = lemma_value_in(bytes, id_type, unit_id, (n - 1) as nat);
        lemma_stands(bytes, n - 1, id_type, unit_id, 1);
        assert(4 * (n - 1) + 20 <= bytes.len());
        if unit_at(bytes, 4 * (n - 1), id_type, unit_id, 1) {
            let value = word_at(bytes, 4 * (n - 1) + 16)->0;
            law_words_are_little_endian(bytes, 4 * (n - 1) + 16, value);
            n - 1
        } else {
            at
        }
    }
}

/// The value of a unit is the word behind its header, where the last one of its type and id
/// stands in the file; there is none where none stands. `at` is that place.
pub proof fn law_last_unit_counts(bytes: Seq<u8>, id_type: u32, unit_id: u32) -> (at: int)
    ensures
        match saved_value(bytes, id_type, unit_id) {
            Some(value) => stands_single(bytes, at, id_type, unit_id) && holds_word(
                bytes,
                4 * at + 16,
                value,
            ) && forall|k: int| at < k ==> !#[trigger] stands_single(bytes, k, id_type, unit_id),
            None => forall|k: int| !#[trigger] stands_single(bytes, k, id_type, unit_id),
        },
{
    lemma_value_in(bytes, id_type, unit_id, places(bytes.len(), 4))
}

/// Whether the master traits of a party member stand at place `k`: fifty of them.
pub open spec fn stands_build(bytes: Seq<u8>, k: int, member: int) -> bool {
    exists|unit_id: u32| #[trigger]
        stands(bytes, k, 3007, unit_id, 50) && unit_id == 104_000 + member && 4 * k + 216
            <= bytes.len()
}

/// The words of fifty values behind the header at place `k`.
pub open spec fn fifty_words(bytes: Seq<u8>, k: int, words: Seq<u32>) -> bool {
    words.len() == 50 && forall|i: int|
        0 <= i < 50 ==> holds_word(bytes, 4 * k + 16 + 4 * i, #[trigger] words[i])
}

proof fn lemma_values(bytes: Seq<u8>, offset: int, count: nat)
    requires
        0 <= offset,
        offset + 16 + 4 * count <= bytes.len(),
    ensures
        values_at(bytes, offset, count).len() == count,
        forall|i: int|
            0 <= i < count ==> holds_word(
                bytes,
                offset + 16 + 4 * i,
                #[trigger] values_at(bytes, offset, count)[i],
            ),
{
    assert forall|i: int| 0 <= i < count implies holds_word(
        bytes,
        offset + 16 + 4 * i,
        #[trigger] values_at(bytes, offset, count)[i],
    ) by {
        law_words_are_little_endian(
            bytes,
            offset + 16 + 4 * i,
            values_at(bytes, offset, count)[i],
        );
    }
}

proof fn lemma_build_in(bytes: Seq<u8>, member: int, n: nat) -> (found: (int, Seq<u32>))
    requires
        0 <= member < 4,
        n <= places(bytes.len(), 200),
    ensures
        (exists|k: int| 0 <= k < n && #[trigger] stands_build(bytes, k, member)) ==> {
            &&& stands_build(bytes, found.0, member)
            &&& forall|k: int| found.0 < k < n ==> !#[trigger] stands_build(bytes, k, member)
            &&& fifty_words(bytes, found.0, found.1)
            &&& build_in(bytes, member, n) == found.1.filter(
                |word: u32| word != 0 && word != 0x887A_E0B0,
            )
        },
        (forall|k: int| 0 <= k < n ==> !#[trigger] stands_build(bytes, k, member)) ==> build_in(
            bytes,
            member,
            n,
        ).len() == 0,
    decreases n,
{
    if n == 0 {
        (0, Seq::empty())
    } else {
        let found = lemma_build_in(bytes, member, (n - 1) as nat);
        let unit_id = party_unit(member);
        assert(unit_id == 104_000 + member);
        lemma_stands(bytes, n - 1, 3007, unit_id, 50);
        assert(4 * (n - 1) + 216 <= bytes.len());
        assert(stands_build(bytes, n - 1, member) <==> stands(bytes, n - 1, 3007, unit_id, 50)) by {
            if stands_build(bytes, n - 1, member) {
                let other = choose|other: u32| #[trigger]
                    stands(bytes, n - 1, 3007, other, 50) && other == 104_000 + member;
                assert(other == unit_id);
            }
        }
        if stands_build(bytes, n - 1, member) {
            lemma_values(bytes, 4 * (n - 1), 50);
            let words = values_at(bytes, 4 * (n - 1), 50);
            assert(crate::master_traits::is_node() == (|word: u32|
                word != 0 && word != 0x887A_E0B0));
            (n - 1, words)
        } else {
            assert forall|k: int| 0 <= k < n && #[trigger] stands_build(bytes, k, member) implies k
                < n - 1 by {}
            found
        }
    }
}

/// The master traits of a party member are the words behind the last header of its kind that
/// name one, in their order; a member without such a header has none. `found` is the place of the
/// header and all its words.
pub proof fn law_builds_are_read(bytes: Seq<u8>, member: int) -> (found: (int, Seq<u32>))
    requires
        0 <= member < 4,
    ensures
        (exists|k: int| #[trigger] stands_build(bytes, k, member)) ==> {
            &&& stands_build(bytes, found.0, member)
            &&& forall|k: int| found.0 < k ==> !#[trigger] stands_build(bytes, k, member)
            &&& fifty_words(bytes, found.0, found.1)
            &&& saved_build(bytes, member) == found.1.filter(
                |word: u32| word != 0 && word != 0x887A_E0B0,
            )
        },
        (forall|k: int| !#[trigger] stands_build(bytes, k, member)) ==> saved_build(
            bytes,
            member,
        ).len() == 0,
{
    let n = places(bytes.len(), 200);
    assert forall|k: int| #[trigger] stands_build(bytes, k, member) implies 0 <= k < n by {}
    lemma_build_in(bytes, member, n)
}

/// Whether the list of sigils of a party member stands at place `k`: twelve at least, all of
/// them within the file.
pub open spec fn stands_sigils(bytes: Seq<u8>, k: int, member: int) -> bool {
    exists|unit_id: u32, count: u32| #[trigger]
        stands(bytes, k, 1403, unit_id, count) && unit_id == 104_000 + member && count >= 12 && 4 * k
            + 16 + 4 * count <= bytes.len()
}

proof fn lemma_sigils_in(bytes: Seq<u8>, member: int, n: nat) -> (at: int)
    requires
        0 <= member < 4,
        n <= places(bytes.len(), 4),
    ensures
        (exists|k: int| 0 <= k < n && #[trigger] stands_sigils(bytes, k, member)) ==> {
            &&& stands_sigils(bytes, at, member)
            &&& forall|k: int| at < k < n ==> !#[trigger] stands_sigils(bytes, k, member)
            &&& sigil_list_in(bytes, member, n).len() == 12
            &&& forall|i: int|
                0 <= i < 12 ==> holds_word(
                    bytes,
                    4 * at + 16 + 4 * i,
                    #[trigger] sigil_list_in(bytes, member, n)[i],
                )
        },
        (forall|k: int| 0 <= k < n ==> !#[trigger] stands_sigils(bytes, k, member))
            ==> sigil_list_in(bytes, member, n).len() == 0,
    decreases n,
{
    if n == 0 {
        0
    } else {
        let at = lemma_sigils_in(bytes, member, (n - 1) as nat);
        let unit_id = party_unit(member);
        assert(unit_id == 104_000 + member);
        assert(stands_sigils(bytes, n - 1, member) == sigil_list_at(bytes, 4 * (n - 1), member)) by {
            if stands_sigils(bytes, n - 1, member) {
                let (other, count) = choose|other: u32, count: u32| #[trigger]
                    stands(bytes, n - 1, 1403, other, count) && other == 104_000 + member && count
                        >= 12 && 4 * (n - 1) + 16 + 4 * count <= bytes.len();
                assert(other == unit_id);
                lemma_stands(bytes, n - 1, 1403, unit_id, count);
                assert(unit_at(bytes, 4 * (n - 1), 1403, unit_id, count));
            }
            if sigil_list_at(bytes, 4 * (n - 1), member) {
                let count = choose|count: u32| #[trigger]
                    unit_at(bytes, 4 * (n - 1), 1403, unit_id, count) && count >= 12 && 4 * (n - 1)
                        + 16 + 4 * count <= bytes.len();
                lemma_stands(bytes, n - 1, 1403, unit_id, count);
                assert(stands(bytes, n - 1, 1403, unit_id, count));
            }
        }
        if stands_sigils(bytes, n - 1, member) {
            lemma_values(bytes, 4 * (n - 1), 12);
            n - 1
        } else {
            assert forall|k: int| 0 <= k < n && #[trigger] stands_sigils(bytes, k, member) implies k
                < n - 1 by {}
            at
        }
    }
}

/// The sigils of a party member are those that the first twelve words behind the last list of its
/// own number, slot by slot; a member without a list has none. `at` is the place of the list.
pub proof fn law_sigil_lists_are_read(bytes: Seq<u8>, traits: Map<u32, (u32, u32)>, member: int) -> (at:
    int)
    requires
        0 <= member < 4,
    ensures
        (exists|k: int| #[trigger] stands_sigils(bytes, k, member)) ==> {
            let list = saved_sigil_list(bytes, member);
            &&& stands_sigils(bytes, at, member)
            &&& forall|k: int| at < k ==> !#[trigger] stands_sigils(bytes, k, member)
            &&& list.len() == 12
            &&& saved_sigils(bytes, traits, member).len() == 12
            &&& forall|i: int|
                0 <= i < 12 ==> holds_word(bytes, 4 * at + 16 + 4 * i, #[trigger] list[i])
            &&& forall|i: int|
                0 <= i < 12 ==> #[trigger] saved_sigils(bytes, traits, member)[i] == saved_sigil(
                    bytes,
                    traits,
                    list[i],
                )
        },
        (forall|k: int| !#[trigger] stands_sigils(bytes, k, member)) ==> saved_sigils(
            bytes,
            traits,
            member,
        ).len() == 0,
{
    let n = places(bytes.len(), 4);
    assert forall|k: int| #[trigger] stands_sigils(bytes, k, member) implies 0 <= k < n by {}
    lemma_sigils_in(bytes, member, n)
}

/// Whether `unit` is the smallest id under which units of a type hold `value`.
pub open spec fn smallest_with(bytes: Seq<u8>, id_type: u32, value: u32, unit: u32) -> bool {
    &&& saved_value(bytes, id_type, unit) == Some(value)
    &&& forall|other: u32| other < unit ==> #[trigger] saved_value(bytes, id_type, other) != Some(value)
}

/// A unit that holds a value is found under the smallest id that does, if any does.
pub proof fn law_smallest_unit_is_found(bytes: Seq<u8>, id_type: u32, value: u32, unit: u32)
    ensures
        smallest_with(bytes, id_type, value, unit) ==> first_saved_unit(bytes, id_type, value)
            == Some(unit),
        (forall|other: u32| #[trigger] saved_value(bytes, id_type, other) != Some(value))
            ==> first_saved_unit(bytes, id_type, value) is None,
{
    if smallest_with(bytes, id_type, value, unit) {
        assert(is_first_unit(bytes, id_type, value, unit));
        let chosen = choose|chosen: u32| is_first_unit(bytes, id_type, value, chosen);
        assert(saved_value(bytes, id_type, chosen) == Some(value));
    }
}

/// A saved number within a limit, or else zero.
pub open spec fn is_limited(number: u32, saved: Option<u32>, limit: u32) -> bool {
    &&& saved is Some && saved->0 <= limit ==> number == saved->0
    &&& saved is None || saved->0 > limit ==> number == 0
}

/// The weapon of a party member lies in the inventory, in the slot that the member names; it has
/// the numbers that are saved for that place, as far as a weapon can have them. No trait is known
/// of it. A member that names no such slot, or one without a weapon, has none.
pub proof fn law_weapons_are_read(
    bytes: Seq<u8>,
    thresholds: Seq<u32>,
    member: int,
    slot: u32,
    unit: u32,
)
    requires
        0 <= member < 4,
        thresholds.len() <= u32::MAX,
    ensures
        saved_value(bytes, 1402, (104_000 + member) as u32) is None ==> saved_weapon(
            bytes,
            thresholds,
            member,
        ) is None,
        saved_value(bytes, 1402, (104_000 + member) as u32) == Some(slot) && smallest_with(
            bytes,
            2802,
            slot,
            unit,
        ) ==> ({
            let weapon = saved_weapon(bytes, thresholds, member);
            let id = saved_value(bytes, 2803, unit);
            let wrightstone = saved_value(bytes, 2816, unit);
            let experience = match saved_value(bytes, 2804, unit) {
                Some(experience) => experience,
                None => 0,
            };
            let there = 40_000 <= unit <= 40_255 && id is Some && id->0 != 0 && id->0
                != 0x887A_E0B0;
            &&& weapon is Some <==> there
            &&& there ==> {
                &&& weapon->0.weapon_id == id->0
                &&& is_limited(weapon->0.star_level, saved_value(bytes, 2805, unit), 6)
                &&& is_limited(weapon->0.plus_marks, saved_value(bytes, 2806, unit), 99)
                &&& is_limited(weapon->0.awakening_level, saved_value(bytes, 2807, unit), 10)
                &&& wrightstone is Some && wrightstone->0 != 0 ==> weapon->0.wrightstone_id
                    == wrightstone->0
                &&& wrightstone is None || wrightstone->0 == 0 ==> weapon->0.wrightstone_id
                    == 0x887A_E0B0
                &&& is_level(thresholds, experience, weapon->0.weapon_level as int)
                &&& weapon->0.trait_1_id == 0x887A_E0B0 && weapon->0.trait_1_level == 0
                &&& weapon->0.trait_2_id == 0x887A_E0B0 && weapon->0.trait_2_level == 0
                &&& weapon->0.trait_3_id == 0x887A_E0B0 && weapon->0.trait_3_level == 0
                &&& weapon->0.weapon_hp == 0 && weapon->0.weapon_attack == 0
            }
        }),
        saved_value(bytes, 1402, (104_000 + member) as u32) == Some(slot) && (forall|other: u32|
            #[trigger] saved_value(bytes, 2802, other) != Some(slot)) ==> saved_weapon(
            bytes,
            thresholds,
            member,
        ) is None,
{
    assert(party_unit(member) == (104_000 + member) as u32);
    law_smallest_unit_is_found(bytes, 2802, slot, unit);
    let experience = match saved_value(bytes, 2804, unit) {
        Some(experience) => experience,
        None => 0,
    };
    law_levels_count_thresholds(thresholds, experience);
}

/// Whether `level` is how many of the thresholds are reached before the first that is not.
pub open spec fn is_level(thresholds: Seq<u32>, experience: u32, level: int) -> bool {
    &&& 0 <= level <= thresholds.len()
    &&& forall|i: int| 0 <= i < level ==> #[trigger] thresholds[i] <= experience
    &&& level < thresholds.len() ==> thresholds[level] > experience
}

/// The level of a weapon is how many thresholds its experience reaches, one after the other.
pub proof fn law_levels_count_thresholds(thresholds: Seq<u32>, experience: u32)
    ensures
        is_level(thresholds, experience, level_of(thresholds, experience) as int),
    decreases thresholds.len(),
{
    if thresholds.len() > 0 && thresholds[0] <= experience {
        let rest = thresholds.drop_first();
        law_levels_count_thresholds(rest, experience);
        let level = level_of(thresholds, experience) as int;
        assert forall|i: int| 0 <= i < level implies #[trigger] thresholds[i] <= experience by {
            if i > 0 {
                assert(rest[i - 1] == thresholds[i]);
            }
        }
        if level < thresholds.len() {
            assert(rest[level - 1] == thresholds[level]);
        }
    }
}

/// Whether a sigil is an empty slot.
pub open spec fn is_empty_slot(sigil: Sigil) -> bool {
    &&& sigil.sigil_id == 0x887A_E0B0
    &&& sigil.first_trait_id == 0x887A_E0B0 && sigil.first_trait_level == 0
    &&& sigil.second_trait_id == 0x887A_E0B0 && sigil.second_trait_level == 0
    &&& sigil.equipped_character == 0x887A_E0B0
    &&& sigil.sigil_level == 0
    &&& sigil.acquisition_count == 0
    &&& sigil.notification_enum == 0
}

/// The sigil that a slot numbers is the one that was acquired under that number. It has the
/// numbers that are saved for its place, and the traits that the game data lists for it, each at
/// the level of the sigil; a trait that is not there is at none. A slot without a number, or with
/// one that no sigil has, is empty.
pub proof fn law_sigils_are_read(
    bytes: Seq<u8>,
    traits: Map<u32, (u32, u32)>,
    number: u32,
    unit: u32,
)
    ensures
        number == 0 || number == 0x887A_E0B0 ==> is_empty_slot(saved_sigil(bytes, traits, number)),
        (forall|other: u32| #[trigger] saved_value(bytes, 2702, other) != Some(number))
            ==> is_empty_slot(saved_sigil(bytes, traits, number)),
        number != 0 && number != 0x887A_E0B0 && smallest_with(bytes, 2702, number, unit) ==> ({
            let sigil = saved_sigil(bytes, traits, number);
            let id = saved_value(bytes, 2703, unit);
            let level = saved_value(bytes, 2704, unit);
            let owner = saved_value(bytes, 2706, unit);
            let notice = saved_value(bytes, 2707, unit);
            let there = id is Some && id->0 != 0 && id->0 != 0x887A_E0B0;
            &&& !there ==> is_empty_slot(sigil)
            &&& there ==> {
                &&& sigil.sigil_id == id->0
                &&& sigil.acquisition_count == number
                &&& level is Some && 1 <= level->0 <= 15 ==> sigil.sigil_level == level->0
                &&& !(level is Some && 1 <= level->0 <= 15) ==> sigil.sigil_level == 0
                &&& sigil.equipped_character == (if owner is Some {
                    owner->0
                } else {
                    0x887A_E0B0
                })
                &&& sigil.notification_enum == (if notice is Some {
                    notice->0
                } else {
                    0
                })
                &&& traits.dom().contains(id->0) ==> sigil.first_trait_id == traits[id->0].0
                    && sigil.second_trait_id == traits[id->0].1
                &&& !traits.dom().contains(id->0) ==> sigil.first_trait_id == 0x887A_E0B0
                    && sigil.second_trait_id == 0x887A_E0B0
                &&& sigil.first_trait_level == (if sigil.first_trait_id != 0x887A_E0B0 {
                    sigil.sigil_level
                } else {
                    0
                })
                &&& sigil.second_trait_level == (if sigil.second_trait_id != 0x887A_E0B0 {
                    sigil.sigil_level
                } else {
                    0
                })
            }
        }),
{
    law_smallest_unit_is_found(bytes, 2702, number, unit);
}

/// The traits of a sigil are those of its last row in the list; a sigil without a row has none
/// that are known. `at` is that row.
pub proof fn law_last_row_counts(rows: Seq<SigilTraitRow>, sigil_id: u32) -> (at: int)
    ensures
        traits_in(rows).dom().contains(sigil_id) ==> {
            &&& 0 <= at < rows.len()
            &&& rows[at].sigil_id == sigil_id
            &&& traits_in(rows)[sigil_id].0 == rows[at].first_trait_id
            &&& traits_in(rows)[sigil_id].1 == rows[at].second_trait_id
            &&& forall|i: int| at < i < rows.len() ==> (#[trigger] rows[i]).sigil_id != sigil_id
        },
        !traits_in(rows).dom().contains(sigil_id) ==> forall|i: int|
            0 <= i < rows.len() ==> (#[trigger] rows[i]).sigil_id != sigil_id,
    decreases rows.len(),
{
    if rows.len() == 0 {
        0
    } else {
        let rest = rows.drop_last();
        let at = law_last_row_counts(rest, sigil_id);
        assert forall|i: int| 0 <= i < rest.len() implies #[trigger] rows[i] == rest[i] by {}
        if rows.last().sigil_id == sigil_id {
            rows.len() - 1
        } else {
            at
        }
    }
}

/// The units that tell of weapons and those that tell of sigils are told apart by their types.
pub proof fn law_unit_types(id_type: u32)
    ensures
        is_weapon_type(id_type) <==> id_type == 1402 || 2802 <= id_type <= 2807 || id_type == 2816,
        is_sigil_type(id_type) <==> 2702 <= id_type <= 2704 || id_type == 2706 || id_type == 2707,
        !(is_weapon_type(id_type) && is_sigil_type(id_type)),
{
}

/// The newest save file is one that was written no earlier than any other, and later than those
/// behind it.
pub proof fn law_newest_is_latest(written: Seq<Option<i128>>, i: int, k: int)
    requires
        is_newest(written, i),
        0 <= k < written.len(),
    ensures
        written[i] is Some,
        written[k] matches Some(time) ==> time <= written[i]->0,
        written[k] == written[i] ==> k <= i,
{
    assert(written[i] is Some);
}

/// A save file is read again once it was written again, or another file takes its place; else
/// what was read stays.
pub proof fn law_changed_files_are_read_again(
    before: Option<CachedBuilds>,
    after: Option<CachedBuilds>,
    path: Seq<char>,
    modified: i128,
    bytes: Seq<u8>,
    tables: GameTables,
    member: int,
)
    requires
        is_refreshed(before, after, path, modified, bytes, tables),
        0 <= member < 4,
    ensures
        after matches Some(after) && after.path@ == path && after.modified == modified,
        (before matches Some(known) && known.path@ == path && known.modified == modified) ==> after
            == before,
        !(before matches Some(known) && known.path@ == path && known.modified == modified) ==> ({
            &&& after->0.builds@[member]@ == saved_build(bytes, member)
            &&& after->0.weapons@[member] == saved_weapon(
                bytes,
                tables.weapon_experience@,
                member,
            )
            &&& after->0.sigils@[member]@ == saved_sigils(bytes, tables.sigil_traits@, member)
        }),
        is_current(before, path, modified) <==> (before matches Some(known) && known.path@ == path
            && known.modified == modified),
{
}

} // verus!
