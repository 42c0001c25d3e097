//! What a report of a player leaves in the party, field by field.

use vstd::prelude::*;

use crate::encounter::{Overmastery, PlayerDataModel, PlayerStats, Sigil, WeaponInfo, PARTY_SIZE};
use crate::master_traits::CachedBuilds;
use crate::parser::attribution::lemma_player_position;
use crate::parser::party::{
    after_equipment_event, after_identity_event, after_load_event, is_news, sigil_record,
};
use crate::parser::ParserModel;
use crate::protocol;
use crate::protocol::{PlayerEquipmentEvent, PlayerIdentityEvent, PlayerLoadEvent};

verus! {

/// The type hash of Id's transformation, which is no player.
pub open spec fn is_transformation(character_type: u32) -> bool {
    character_type == 0xF575_5C0E
}

/// Whether a weapon is the reported one, field by field.
pub open spec fn same_weapon(weapon: WeaponInfo, told: protocol::WeaponInfo) -> bool {
    &&& weapon.weapon_id == told.weapon_id
    &&& weapon.star_level == told.star_level
    &&& weapon.plus_marks == told.plus_marks
    &&& weapon.awakening_level == told.awakening_level
    &&& weapon.trait_1_id == told.trait_1_id
    &&& weapon.trait_1_level == told.trait_1_level
    &&& weapon.trait_2_id == told.trait_2_id
    &&& weapon.trait_2_level == told.trait_2_level
    &&& weapon.trait_3_id == told.trait_3_id
    &&& weapon.trait_3_level == told.trait_3_level
    &&& weapon.wrightstone_id == told.wrightstone_id
    &&& weapon.weapon_level == told.weapon_level
    &&& weapon.weapon_hp == told.weapon_hp
    &&& weapon.weapon_attack == told.weapon_attack
}

/// Whether an overmastery is the reported one, field by field.
pub open spec fn same_overmastery(one: Overmastery, told: protocol::Overmastery) -> bool {
    one.id == told.id && one.flags == told.flags && one.value == told.value
}

/// Whether overmasteries are the reported ones, one for one.
pub open spec fn same_overmasteries(all: Seq<Overmastery>, told: protocol::OvermasteryInfo) -> bool {
    &&& all.len() == told.overmasteries@.len()
    &&& forall|i: int|
        0 <= i < all.len() ==> same_overmastery(#[trigger] all[i], told.overmasteries@[i])
}

/// Whether stats are the reported ones, field by field.
pub open spec fn same_stats(stats: PlayerStats, told: protocol::PlayerStats) -> bool {
    &&& stats.level == told.level
    &&& stats.total_hp == told.total_hp
    &&& stats.total_attack == told.total_attack
    &&& stats.stun_power == told.stun_power
    &&& stats.critical_rate == told.critical_rate
    &&& stats.total_power == told.total_power
}

/// Whether a level is that of a trait: zero where there is no trait, else the one told, else
/// that of the sigil, whichever is from 1 to 15 first, else zero.
pub open spec fn is_trait_level(level: u32, trait_id: u32, told: u32, sigil_level: u32) -> bool {
    let there = trait_id != 0 && trait_id != 0x887A_E0B0;
    &&& !there ==> level == 0
    &&& there && 1 <= told <= 15 ==> level == told
    &&& there && !(1 <= told <= 15) && 1 <= sigil_level <= 15 ==> level == sigil_level
    &&& there && !(1 <= told <= 15) && !(1 <= sigil_level <= 15) ==> level == 0
}

/// Whether a sigil is the reported one, with the traits that the game data lists for it, or
/// else the reported ones.
pub open spec fn same_sigil(sigil: Sigil, told: protocol::Sigil, traits: Map<u32, (u32, u32)>) -> bool {
    &&& sigil.sigil_id == told.sigil_id
    &&& sigil.equipped_character == told.equipped_character
    &&& sigil.sigil_level == told.sigil_level
    &&& sigil.acquisition_count == told.acquisition_count
    &&& sigil.notification_enum == told.notification_enum
    &&& traits.dom().contains(told.sigil_id) ==> sigil.first_trait_id == traits[told.sigil_id].0
        && sigil.second_trait_id == traits[told.sigil_id].1
    &&& !traits.dom().contains(told.sigil_id) ==> sigil.first_trait_id == told.first_trait_id
        && sigil.second_trait_id == told.second_trait_id
    &&& is_trait_level(
        sigil.first_trait_level,
        sigil.first_trait_id,
        told.first_trait_level,
        told.sigil_level,
    )
    &&& is_trait_level(
        sigil.second_trait_level,
        sigil.second_trait_id,
        told.second_trait_level,
        told.sigil_level,
    )
}

/// Whether sigils are the first `count` reported ones, one for one.
pub open spec fn same_sigils(
    sigils: Seq<Sigil>,
    told: Seq<protocol::Sigil>,
    count: int,
    traits: Map<u32, (u32, u32)>,
) -> bool {
    &&& sigils.len() == count <= told.len()
    &&& forall|i: int| 0 <= i < count ==> same_sigil(#[trigger] sigils[i], told[i], traits)
}

/// Whether slot `i` is the first that holds player `actor_index`.
pub open spec fn is_seat(players: Seq<Option<PlayerDataModel>>, actor_index: u32, i: int) -> bool {
    &&& 0 <= i < players.len()
    &&& players[i] is Some
    &&& players[i]->0.actor_index == actor_index
    &&& forall|k: int|
        0 <= k < i ==> !((#[trigger] players[k]) is Some && players[k]->0.actor_index
            == actor_index)
}

/// Whether no slot holds player `actor_index`.
pub open spec fn is_absent(players: Seq<Option<PlayerDataModel>>, actor_index: u32) -> bool {
    forall|k: int|
        0 <= k < players.len() ==> !((#[trigger] players[k]) is Some && players[k]->0.actor_index
            == actor_index)
}

/// Whether a player is in slot `party_index` and in no other, the other players are where they
/// were, and nothing but the party has changed.
pub open spec fn seats_only(
    before: ParserModel,
    after: ParserModel,
    actor_index: u32,
    party_index: u8,
) -> bool {
    let old_party = before.encounter.player_data;
    let party = after.encounter.player_data;
    &&& party.len() == old_party.len()
    &&& forall|i: int|
        0 <= i < party.len() && i != party_index ==> #[trigger] party[i] == (if old_party[i] is Some
            && old_party[i]->0.actor_index == actor_index {
            None
        } else {
            old_party[i]
        })
    &&& after.encounter.raw_event_log == before.encounter.raw_event_log
    &&& after.encounter.event_log == before.encounter.event_log
    &&& after.encounter.quest_id == before.encounter.quest_id
    &&& after.encounter.quest_timer == before.encounter.quest_timer
    &&& after.encounter.quest_completed == before.encounter.quest_completed
    &&& after.derived_state == before.derived_state
    &&& after.status == before.status
    &&& after.id_transformation_parents == before.id_transformation_parents
    &&& after.death_counts == before.death_counts
    &&& after.last_encounter_emit_at == before.last_encounter_emit_at
    &&& after.encounter_update_pending == before.encounter_update_pending
}

/// The saved master traits, weapon and sigils of the member in slot `party_index`, if a save
/// was read.
pub open spec fn from_save(
    save: Option<&CachedBuilds>,
    party_index: u8,
) -> (Seq<u32>, Option<WeaponInfo>, Seq<Sigil>)
    recommends
        party_index < PARTY_SIZE,
{
    match save {
        Some(cached) => (
            cached.builds@[party_index as int]@,
            cached.weapons@[party_index as int],
            cached.sigils@[party_index as int]@,
        ),
        None => (Seq::empty(), None, Seq::empty()),
    }
}

/// A report of Id's transformation changes nothing.
pub proof fn law_transformations_are_no_players(
    parser: ParserModel,
    load: PlayerLoadEvent,
    identity: PlayerIdentityEvent,
    equipment: PlayerEquipmentEvent,
    traits: Map<u32, (u32, u32)>,
    save: Option<&CachedBuilds>,
)
    ensures
        is_transformation(load.character_type) ==> after_load_event(parser, load, traits, save)
            == parser,
        is_transformation(identity.character_type) ==> after_identity_event(parser, identity, save)
            == parser,
        is_transformation(equipment.character_type) ==> after_equipment_event(
            parser,
            equipment,
            traits,
            save,
        ) == parser,
{
}

/// A reported sigil is recorded with its own fields, and with the traits of the game data.
pub proof fn law_sigils_are_recorded(told: protocol::Sigil, traits: Map<u32, (u32, u32)>)
    ensures
        same_sigil(sigil_record(told, traits), told, traits),
{
}

/// What an equipment report tells of a player, the player in that slot has afterwards, field
/// by field. What it does not tell stays as it was known, but for a player that was local and
/// is online; a weapon and master traits that a local player is not known to have come from
/// the save.
pub proof fn law_equipment_is_taken_in(
    parser: ParserModel,
    event: PlayerEquipmentEvent,
    traits: Map<u32, (u32, u32)>,
    save: Option<&CachedBuilds>,
    seat: int,
)
    requires
        parser.encounter.player_data.len() == PARTY_SIZE,
        event.party_index < PARTY_SIZE,
        !is_transformation(event.character_type),
        is_seat(parser.encounter.player_data, event.actor_index, seat) || is_absent(
            parser.encounter.player_data,
            event.actor_index,
        ),
    ensures
        ({
            let after = after_equipment_event(parser, event, traits, save);
            let slot = after.encounter.player_data[event.party_index as int];
            let player = slot->0;
            let reported = event.sigils@.len();
            let (build, weapon, _) = from_save(save, event.party_index);
            let known = is_seat(parser.encounter.player_data, event.actor_index, seat);
            let old = parser.encounter.player_data[seat]->0;
            let lost = known && event.is_online && !old.is_online;
            let nameless = !event.is_online && event.party_index != 0;
            &&& seats_only(parser, after, event.actor_index, event.party_index)
            &&& slot is Some
            &&& player.actor_index == event.actor_index
            &&& player.is_online == event.is_online
            &&& player.character_type == crate::constants::character_of(event.character_type)
            &&& event.weapon_info matches Some(told) ==> player.weapon_info is Some && same_weapon(
                player.weapon_info->0,
                told,
            )
            &&& event.overmastery_info matches Some(told) ==> player.overmastery_info is Some
                && same_overmasteries(player.overmastery_info->0, told)
            &&& event.player_stats matches Some(told) ==> player.player_stats is Some && same_stats(
                player.player_stats->0,
                told,
            )
            &&& event.master_traits matches Some(told) ==> player.master_traits == told@
            &&& event.master_traits is None ==> player.master_traits == (if event.is_online {
                Seq::empty()
            } else {
                build
            })
            &&& 0 < reported <= 12 ==> same_sigils(
                player.sigils,
                event.sigils@,
                reported as int,
                traits,
            )
            &&& reported > 12 ==> same_sigils(player.sigils, event.sigils@, 12, traits)
            &&& nameless ==> player.display_name.len() == 0 && player.character_name.len() == 0
            &&& known ==> {
                &&& !nameless ==> player.display_name == old.display_name && player.character_name
                    == old.character_name
                &&& reported == 0 ==> player.sigils == old.sigils
                &&& event.weapon_info is None ==> player.weapon_info == (if lost {
                    None
                } else if old.weapon_info is None && !event.is_online {
                    weapon
                } else {
                    old.weapon_info
                })
                &&& event.overmastery_info is None ==> player.overmastery_info == (if lost {
                    None
                } else {
                    old.overmastery_info
                })
                &&& event.player_stats is None ==> player.player_stats == (if lost {
                    None
                } else {
                    old.player_stats
                })
            }
            &&& !known ==> {
                &&& player.display_name.len() == 0 && player.character_name.len() == 0
                &&& reported == 0 ==> player.sigils.len() == 0
                &&& event.weapon_info is None ==> player.weapon_info == (if event.is_online {
                    None
                } else {
                    weapon
                })
                &&& event.overmastery_info is None ==> player.overmastery_info is None
                &&& event.player_stats is None ==> player.player_stats is None
            }
        }),
{
    let players = parser.encounter.player_data;
    if is_seat(players, event.actor_index, seat) {
        lemma_player_position(players, event.actor_index, seat as nat);
    } else {
        lemma_player_position(players, event.actor_index, players.len());
    }
}

/// A loaded player is in its slot with all that the report tells, field by field; only a local
/// one has the saved master traits.
pub proof fn law_loaded_player_is_taken_in(
    parser: ParserModel,
    event: PlayerLoadEvent,
    traits: Map<u32, (u32, u32)>,
    save: Option<&CachedBuilds>,
)
    requires
        parser.encounter.player_data.len() == PARTY_SIZE,
        event.party_index < PARTY_SIZE,
        !is_transformation(event.character_type),
    ensures
        ({
            let after = after_load_event(parser, event, traits, save);
            let slot = after.encounter.player_data[event.party_index as int];
            let player = slot->0;
            let (build, _, _) = from_save(save, event.party_index);
            &&& seats_only(parser, after, event.actor_index, event.party_index)
            &&& slot is Some
            &&& player.actor_index == event.actor_index
            &&& player.display_name == event.display_name@
            &&& player.character_name == event.character_name@
            &&& player.character_type == crate::constants::character_of(event.character_type)
            &&& player.is_online == event.is_online
            &&& same_sigils(player.sigils, event.sigils@, event.sigils@.len() as int, traits)
            &&& player.weapon_info is Some && same_weapon(player.weapon_info->0, event.weapon_info)
            &&& player.overmastery_info is Some && same_overmasteries(
                player.overmastery_info->0,
                event.overmastery_info,
            )
            &&& player.player_stats is Some && same_stats(player.player_stats->0, event.player_stats)
            &&& player.master_traits == (if event.is_online {
                Seq::empty()
            } else {
                build
            })
        }),
{
}

/// A player that was identified is in its slot with the name and character told. What was
/// known of it stays if it is as local, or as online, as before; a local player has the saved
/// master traits, and the saved sigils and weapon where none are known.
pub proof fn law_identity_is_taken_in(
    parser: ParserModel,
    event: PlayerIdentityEvent,
    save: Option<&CachedBuilds>,
    seat: int,
)
    requires
        parser.encounter.player_data.len() == PARTY_SIZE,
        event.party_index < PARTY_SIZE,
        !is_transformation(event.character_type),
        is_seat(parser.encounter.player_data, event.actor_index, seat) || is_absent(
            parser.encounter.player_data,
            event.actor_index,
        ),
    ensures
        ({
            let after = after_identity_event(parser, event, save);
            let slot = after.encounter.player_data[event.party_index as int];
            let player = slot->0;
            let (build, weapon, sigils) = from_save(save, event.party_index);
            let old = parser.encounter.player_data[seat]->0;
            let kept = is_seat(parser.encounter.player_data, event.actor_index, seat)
                && old.is_online == event.is_online;
            &&& seats_only(parser, after, event.actor_index, event.party_index)
            &&& slot is Some
            &&& player.actor_index == event.actor_index
            &&& player.display_name == event.display_name@
            &&& player.character_name == event.character_name@
            &&& player.character_type == crate::constants::character_of(event.character_type)
            &&& player.is_online == event.is_online
            &&& kept ==> player.overmastery_info == old.overmastery_info && player.player_stats
                == old.player_stats
            &&& !kept ==> player.overmastery_info is None && player.player_stats is None
            &&& event.is_online && kept ==> player.sigils == old.sigils && player.weapon_info
                == old.weapon_info
            &&& event.is_online && !kept ==> player.sigils.len() == 0 && player.weapon_info is None
            &&& event.is_online ==> player.master_traits.len() == 0
            &&& !event.is_online ==> {
                &&& player.master_traits == build
                &&& player.sigils == (if kept && old.sigils.len() > 0 {
                    old.sigils
                } else {
                    sigils
                })
                &&& player.weapon_info == (if kept && old.weapon_info is Some {
                    old.weapon_info
                } else {
                    weapon
                })
            }
        }),
{
    let players = parser.encounter.player_data;
    if is_seat(players, event.actor_index, seat) {
        lemma_player_position(players, event.actor_index, seat as nat);
    } else {
        lemma_player_position(players, event.actor_index, players.len());
    }
}

/// A player is either in some slot first, or in none.
pub proof fn law_a_player_sits_somewhere_or_nowhere(
    players: Seq<Option<PlayerDataModel>>,
    actor_index: u32,
) -> (seat: int)
    ensures
        is_seat(players, actor_index, seat) || is_absent(players, actor_index),
    decreases players.len(),
{
    if players.len() == 0 {
        0
    } else {
        let rest = players.drop_last();
        let last = players.len() - 1;
        let seat = law_a_player_sits_somewhere_or_nowhere(rest, actor_index);
        if is_seat(rest, actor_index, seat) {
            assert forall|k: int| 0 <= k < seat implies !((#[trigger] players[k]) is Some
                && players[k]->0.actor_index == actor_index) by {
                assert(rest[k] == players[k]);
            }
            assert(rest[seat] == players[seat]);
            seat
        } else {
            assert forall|k: int| 0 <= k < last implies !((#[trigger] players[k]) is Some
                && players[k]->0.actor_index == actor_index) by {
                assert(rest[k] == players[k]);
            }
            last
        }
    }
}

/// Reports of all characters are passed on, but those of Id's transformation.
pub proof fn law_what_is_news(character_type: u32)
    ensures
        is_news(character_type) <==> character_type != 0xF575_5C0E,
{
}

} // verus!
