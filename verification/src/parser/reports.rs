//! What a report leaves behind that is taken in as it comes, field by field.

use vstd::prelude::*;

use crate::cap_detection::cap_known;
use crate::constants::{character_of, CharacterType};
use crate::derived::{after_damage, DerivedModel};
use crate::encounter::EncounterModel;
use crate::float32::Float32;
use crate::parser::attribution::{adjusted, observed_parent, owner_of, parents_with};
use crate::parser::credit::{deaths_of, law_deaths_are_counted};
use crate::parser::live::{
    after_damage_event, after_death_event, after_sba_report, damage_taken, engaged, flushed,
    forgotten, ignored, running, update_due,
};
use crate::parser::replay::reparsed;
use crate::parser::ParserModel;
use crate::player_state::{
    hit_of, is_skill_of, skill_position, Hit, PlayerModel, SkillState, HIT_LIMIT, LOG_LIMIT,
};
use crate::parser::uses::answers_for;
use crate::protocol::{DamageEvent, Message, OnDeathEvent};

verus! {

/// Whether a hit is none of a player's: it does no damage, it goes to Eugen's grenade, or the
/// actor it names as its owner is no playable character.
pub open spec fn is_no_players_hit(hit: DamageEvent) -> bool {
    hit.damage <= 0 || hit.target.actor_type == 0x022A_350F || (character_of(
        hit.source.parent_actor_type,
    ) is Unknown)
}

/// Hits that are none of a player's, and no others, leave everything as it is.
pub proof fn law_only_hits_of_players_count(parser: ParserModel, now: i64, hit: DamageEvent)
    ensures
        is_no_players_hit(hit) ==> after_damage_event(parser, now, hit) == parser,
        !is_no_players_hit(hit) ==> ({
            let after = after_damage_event(parser, now, hit);
            let log = if parser.status is InProgress {
                parser.encounter.raw_event_log
            } else {
                Seq::empty()
            };
            &&& after.status is InProgress
            &&& after.encounter.raw_event_log.len() == log.len() + 1
            &&& after.encounter.raw_event_log.take(log.len() as int) == log
            &&& after.encounter.raw_event_log.last().0 == now
            &&& after.encounter.raw_event_log.last().1 == Message::DamageEvent(
                adjusted(
                    hit,
                    parser.encounter.player_data,
                    parents_with(
                        if parser.status is InProgress {
                            parser.id_transformation_parents
                        } else {
                            Map::empty()
                        },
                        observed_parent(hit),
                    ),
                ),
            )
            &&& after.encounter.player_data == parser.encounter.player_data
            &&& after.encounter.quest_id == parser.encounter.quest_id
            &&& after.encounter.quest_timer == parser.encounter.quest_timer
            &&& after.encounter.quest_completed == parser.encounter.quest_completed
            &&& after.encounter.event_log == parser.encounter.event_log
        }),
{
    assert(ignored(hit) == is_no_players_hit(hit));
    if !ignored(hit) {
        let after = after_damage_event(parser, now, hit);
        let log = engaged(parser, now).encounter.raw_event_log;
        assert(after.encounter.raw_event_log.take(log.len() as int) =~= log);
    }
}

/// Whether an encounter is a new one: nothing has been worked out and nothing was reported.
pub open spec fn is_new(parser: ParserModel) -> bool {
    &&& parser.encounter.raw_event_log.len() == 0
    &&& parser.derived_state.total_damage == 0
    &&& parser.derived_state.rate_millis == 0
    &&& parser.derived_state.stun_values.len() == 0
    &&& parser.derived_state.party.dom().is_empty()
    &&& parser.derived_state.targets.dom().is_empty()
    &&& parser.id_transformation_parents.dom().is_empty()
    &&& parser.death_counts.dom().is_empty()
    &&& parser.last_encounter_emit_at == 0
    &&& !parser.encounter_update_pending
}

/// A report that starts an encounter finds a new one, with the party and the quest as they
/// were, that starts now; one that comes in the middle of an encounter finds it as it is.
pub proof fn law_new_encounters_start_afresh(parser: ParserModel, now: i64)
    ensures
        parser.status is InProgress ==> running(parser, now) == parser,
        !(parser.status is InProgress) ==> ({
            let fresh = running(parser, now);
            &&& is_new(fresh)
            &&& fresh.status is InProgress
            &&& fresh.derived_state.status is InProgress
            &&& fresh.derived_state.start_time == now
            &&& fresh.derived_state.end_time == now
            &&& fresh.encounter.player_data == parser.encounter.player_data
            &&& fresh.encounter.quest_id == parser.encounter.quest_id
            &&& fresh.encounter.quest_timer == parser.encounter.quest_timer
            &&& fresh.encounter.quest_completed == parser.encounter.quest_completed
            &&& fresh.encounter.event_log == parser.encounter.event_log
        }),
        is_new(forgotten(parser)),
        forgotten(parser).status == parser.status,
        forgotten(parser).encounter.player_data == parser.encounter.player_data,
        forgotten(parser).encounter.quest_id == parser.encounter.quest_id,
        forgotten(parser).encounter.quest_timer == parser.encounter.quest_timer,
        forgotten(parser).encounter.quest_completed == parser.encounter.quest_completed,
{
}

/// Whether one skill list is another with one more hit: the skill of the action and the child
/// has it, and the others are as they were; where there was none it comes last.
pub open spec fn gains_hit(
    before: Seq<SkillState>,
    after: Seq<SkillState>,
    action: crate::protocol::ActionType,
    child: CharacterType,
    damage: i32,
    is_capped: bool,
    is_known: bool,
    at: int,
) -> bool {
    let none = SkillState {
        action_type: action,
        child_character_type: child,
        hits: 0,
        total_damage: 0,
        capped_hits: 0,
        cap_known_hits: 0,
    };
    let old = if at < before.len() {
        before[at]
    } else {
        none
    };
    &&& 0 <= at < after.len()
    &&& after.len() == (if at < before.len() {
        before.len()
    } else {
        before.len() + 1
    })
    &&& old.action_type == action && old.child_character_type == child
    &&& after[at].action_type == action && after[at].child_character_type == child
    &&& after[at].hits == old.hits + 1
    &&& after[at].total_damage == old.total_damage + damage
    &&& after[at].capped_hits == old.capped_hits + (if is_capped {
        1int
    } else {
        0
    })
    &&& after[at].cap_known_hits == old.cap_known_hits + (if is_known {
        1int
    } else {
        0
    })
    &&& forall|i: int| 0 <= i < before.len() && i != at ==> #[trigger] after[i] == before[i]
    &&& at >= before.len() ==> forall|i: int|
        0 <= i < before.len() ==> !((#[trigger] before[i]).action_type == action
            && before[i].child_character_type == child)
}

/// One more hit counts for its owner and its target, and for nobody else: damage, stun, caps
/// and the skill that it comes from. The encounter has its damage and its stun, and ends with
/// it. `at` is the place of the skill.
pub proof fn law_hit_is_credited(state: DerivedModel, now: i64, hit: Hit, n: nat, other: u32) -> (at: int)
    requires
        state.bounded(n),
        n < LOG_LIMIT,
        hit.event.damage >= 0,
    ensures
        ({
            let after = after_damage(state, now, hit);
            let owner = hit.event.source.parent_index;
            let enemy = hit.event.target.parent_index;
            let had = state.party.dom().contains(owner);
            let old = state.party[owner];
            let player = after.party[owner];
            let was_hit = state.targets.dom().contains(enemy);
            &&& after.total_damage == state.total_damage + hit.event.damage
            &&& after.stun_values == state.stun_values.push(hit.stun_damage)
            &&& after.end_time == now
            &&& after.start_time == state.start_time
            &&& after.status == state.status
            &&& now - state.start_time > 1 && now - state.start_time <= i64::MAX
                ==> after.rate_millis == now - state.start_time
            &&& now - state.start_time <= 1 ==> after.rate_millis == 1
            &&& after.party.dom().contains(owner)
            &&& player.index == (if had {
                old.index
            } else {
                owner
            })
            &&& player.character_type == (if had {
                old.character_type
            } else {
                character_of(hit.event.source.parent_actor_type)
            })
            &&& player.total_damage == (if had {
                old.total_damage as int
            } else {
                0
            }) + hit.event.damage
            &&& player.stun_values == (if had {
                old.stun_values
            } else {
                Seq::empty()
            }).push(hit.stun_damage)
            &&& player.capped_hits == (if had {
                old.capped_hits as int
            } else {
                0
            }) + (if hit.is_capped {
                1int
            } else {
                0
            })
            &&& player.cap_known_hits == (if had {
                old.cap_known_hits as int
            } else {
                0
            }) + (if hit.cap_known {
                1int
            } else {
                0
            })
            &&& gains_hit(
                if had {
                    old.skill_breakdown
                } else {
                    Seq::empty()
                },
                player.skill_breakdown,
                hit.event.action_id,
                character_of(hit.event.source.actor_type),
                hit.event.damage,
                hit.is_capped,
                hit.cap_known,
                at,
            )
            &&& player.sba == (if had {
                old.sba
            } else {
                Float32 { bits: 0 }
            })
            &&& player.deaths == (if had {
                old.deaths
            } else {
                0
            })
            &&& after.targets.dom().contains(enemy)
            &&& after.targets[enemy].total_damage == (if was_hit {
                state.targets[enemy].total_damage as int
            } else {
                0
            }) + hit.event.damage
            &&& was_hit ==> after.targets[enemy].index == state.targets[enemy].index
                && after.targets[enemy].raw_target_type == state.targets[enemy].raw_target_type
                && after.targets[enemy].target_type == state.targets[enemy].target_type
            &&& !was_hit ==> after.targets[enemy].index == enemy
                && after.targets[enemy].raw_target_type == hit.event.target.parent_actor_type
                && after.targets[enemy].target_type.hash == hit.event.target.parent_actor_type
            &&& other != owner ==> after.party.dom().contains(other) == state.party.dom().contains(
                other,
            ) && after.party[other] == state.party[other]
            &&& other != enemy ==> after.targets.dom().contains(other)
                == state.targets.dom().contains(other) && after.targets[other]
                == state.targets[other]
        }),
{
    let owner = hit.event.source.parent_index;
    let enemy = hit.event.target.parent_index;
    assert(state.total_damage <= n * HIT_LIMIT);
    if state.party.contains_key(owner) {
        let old = state.party[owner];
        assert(old.bounded(n));
        let position = skill_position(old.skill_breakdown, hit.event);
        crate::parser::tally::lemma_position_found(old.skill_breakdown, hit.event);
        if position < old.skill_breakdown.len() {
            assert(old.skill_breakdown[position as int].bounded(n));
        } else {
            assert forall|i: int| 0 <= i < old.skill_breakdown.len() implies !((
            #[trigger] old.skill_breakdown[i]).action_type == hit.event.action_id
                && old.skill_breakdown[i].child_character_type == character_of(
                hit.event.source.actor_type,
            )) by {
                assert(!is_skill_of(old.skill_breakdown[i], hit.event));
            }
        }
        if state.targets.contains_key(enemy) {
            assert(state.targets[enemy].total_damage <= n * HIT_LIMIT);
        }
        position as int
    } else {
        if state.targets.contains_key(enemy) {
            assert(state.targets[enemy].total_damage <= n * HIT_LIMIT);
        }
        0
    }
}

/// While no multiplier is known, a hit is capped exactly if it has a known cap and reaches it;
/// it stuns by what it tells, or not at all.
pub proof fn law_live_hits_are_judged_alone(hit: DamageEvent)
    ensures
        ({
            let full = hit_of(hit, Seq::empty());
            &&& full.event == hit
            &&& hit.stun_value matches Some(value) ==> full.stun_damage == value
            &&& hit.stun_value is None ==> full.stun_damage.bits == 0
            &&& full.cap_known == (hit.damage_cap is Some && 0 < hit.damage_cap->0 < 99_999_999)
            &&& full.is_capped == (full.cap_known && hit.damage >= hit.damage_cap->0)
        }),
{
}

/// A hit that is taken in live counts at once, as it counts with the owners known so far: for
/// its owner as one more hit of the running encounter. Only where it shows whom a transformation
/// belongs to that has hits of its own is the whole log counted again.
pub proof fn law_live_hits_count_at_once(parser: ParserModel, now: i64, hit: DamageEvent)
    requires
        !is_no_players_hit(hit),
    ensures
        ({
            let start = running(parser, now);
            let parents = parents_with(start.id_transformation_parents, observed_parent(hit));
            let counted = adjusted(hit, parser.encounter.player_data, parents);
            let owner = counted.source.parent_index;
            let first = start.derived_state.total_damage == 0;
            let state = DerivedModel {
                start_time: if first {
                    now
                } else {
                    start.derived_state.start_time
                },
                end_time: if first {
                    now
                } else {
                    start.derived_state.end_time
                },
                ..start.derived_state
            };
            let after = after_damage_event(parser, now, hit);
            let learns = hit.source.actor_type == 0xF575_5C0E && hit.source.parent_actor_type
                == 0x8056_ABCD && !start.id_transformation_parents.dom().contains(hit.source.index);
            let again = learns && start.derived_state.party.dom().contains(hit.source.index);
            let tallied = after_damage(state, now, hit_of(counted, Seq::empty()));
            &&& again ==> after.derived_state == reparsed(after, true, Seq::empty()).derived_state
            &&& !again ==> {
                &&& after.id_transformation_parents == parents
                &&& after.death_counts == start.death_counts
                &&& after.derived_state.total_damage == tallied.total_damage
                &&& after.derived_state.stun_values == tallied.stun_values
                &&& after.derived_state.start_time == tallied.start_time
                &&& after.derived_state.end_time == tallied.end_time
                &&& after.derived_state.rate_millis == tallied.rate_millis
                &&& after.derived_state.targets == tallied.targets
                &&& after.derived_state.party.dom() == tallied.party.dom()
                &&& forall|other: u32| #[trigger]
                    after.derived_state.party.contains_key(other) && other != owner
                        ==> after.derived_state.party[other] == tallied.party[other]
                &&& after.derived_state.party[owner] == (PlayerModel {
                    deaths: if start.death_counts.dom().contains(owner) {
                        start.death_counts[owner]
                    } else {
                        tallied.party[owner].deaths
                    },
                    ..tallied.party[owner]
                })
            }
        }),
{
    assert(!ignored(hit));
    let start = running(parser, now);
    let begun = engaged(parser, now);
    let parents = parents_with(start.id_transformation_parents, observed_parent(hit));
    let counted = adjusted(hit, parser.encounter.player_data, parents);
    let owner = counted.source.parent_index;
    let tallied = after_damage(begun.derived_state, now, hit_of(counted, Seq::empty()));
    let after = after_damage_event(parser, now, hit);
    assert(tallied.party.dom().contains(owner));
    assert(after.encounter == damage_taken(begun, now, hit).encounter);
    assert(after.status == damage_taken(begun, now, hit).status);
    let next = damage_taken(begun, now, hit);
    assert(reparsed(after, true, Seq::empty()).derived_state == reparsed(
        next,
        true,
        Seq::empty(),
    ).derived_state);
    let learns = hit.source.actor_type == 0xF575_5C0E && hit.source.parent_actor_type == 0x8056_ABCD
        && !start.id_transformation_parents.dom().contains(hit.source.index);
    let again = learns && start.derived_state.party.dom().contains(hit.source.index);
    if !again {
        assert(after.derived_state.party.dom() =~= tallied.party.dom());
    }
}

/// A report of a skybound art is logged, and sets the gauge of its actor alone, if it is in the
/// party: to the level told, to 1000 where the art is requested, to zero where it was used or
/// continued. Nothing else of the encounter changes.
pub proof fn law_gauges_are_set(parser: ParserModel, now: i64, message: Message, other: u32)
    requires
        message is OnUpdateSBA || message is OnAttemptSBA || message is OnPerformSBA
            || message is OnContinueSBAChain,
    ensures
        ({
            let after = after_sba_report(parser, now, message);
            let (actor, bits) = match message {
                Message::OnUpdateSBA(event) => (event.actor_index, event.sba_value.bits),
                Message::OnAttemptSBA(event) => (event.actor_index, 0x447A_0000u32),
                Message::OnPerformSBA(event) => (event.actor_index, 0),
                Message::OnContinueSBAChain(event) => (event.actor_index, 0),
                _ => (0, 0),
            };
            let old = parser.derived_state.party;
            let party = after.derived_state.party;
            &&& after.encounter == (EncounterModel {
                raw_event_log: parser.encounter.raw_event_log.push((now, message)),
                ..parser.encounter
            })
            &&& party.dom() == old.dom()
            &&& old.dom().contains(actor) ==> party[actor] == (PlayerModel {
                sba: Float32 { bits },
                ..old[actor]
            })
            &&& other != actor && old.dom().contains(other) ==> party[other] == old[other]
            &&& after.derived_state == (DerivedModel { party, ..parser.derived_state })
            &&& after.status == parser.status
            &&& after.id_transformation_parents == parser.id_transformation_parents
            &&& after.death_counts == parser.death_counts
        }),
{
    let after = after_sba_report(parser, now, message);
    assert(after.derived_state.party.dom() =~= parser.derived_state.party.dom());
}

/// A death is logged and counted for the actor that answers for the one that died, and shown by
/// its player if it is in the party; it starts an encounter where none is in progress. Nothing
/// else changes.
pub proof fn law_deaths_are_taken_in(
    parser: ParserModel,
    now: i64,
    event: OnDeathEvent,
    actor: u32,
    other: u32,
)
    requires
        answers_for(running(parser, now).id_transformation_parents, actor, event.actor_index),
    ensures
        ({
            let start = running(parser, now);
            let after = after_death_event(parser, now, event);
            let old = start.derived_state.party;
            let party = after.derived_state.party;
            let had = deaths_of(start.death_counts, actor);
            let now_has = deaths_of(after.death_counts, actor);
            &&& after.encounter == (EncounterModel {
                raw_event_log: start.encounter.raw_event_log.push(
                    (now, Message::OnDeathEvent(event)),
                ),
                ..start.encounter
            })
            &&& after.status is InProgress
            &&& event.is_delta && had + event.death_counter <= u32::MAX ==> now_has == had
                + event.death_counter
            &&& !event.is_delta && event.death_counter >= had ==> now_has == event.death_counter
            &&& !event.is_delta && event.death_counter < had ==> now_has == had
            &&& other != actor ==> deaths_of(after.death_counts, other) == deaths_of(
                start.death_counts,
                other,
            )
            &&& party.dom() == old.dom()
            &&& old.dom().contains(actor) ==> party[actor].deaths == now_has && party[actor] == (
            PlayerModel { deaths: party[actor].deaths, ..old[actor] })
            &&& other != actor && old.dom().contains(other) ==> party[other] == old[other]
            &&& after.derived_state == (DerivedModel { party, ..start.derived_state })
            &&& after.id_transformation_parents == start.id_transformation_parents
        }),
{
    let start = running(parser, now);
    let after = after_death_event(parser, now, event);
    assert(owner_of(start.id_transformation_parents, event.actor_index) == actor);
    law_deaths_are_counted(
        start.death_counts,
        actor,
        event.death_counter,
        event.is_delta,
        other,
    );
    assert(after.derived_state.party.dom() =~= start.derived_state.party.dom());
}

/// What waits to be sent is sent exactly if nothing was sent yet, or a tenth of a second ago or
/// longer; sending it is all that a flush changes.
pub proof fn law_updates_are_sent_when_due(parser: ParserModel, now: i64)
    ensures
        update_due(parser, now) <==> parser.encounter_update_pending && (
        parser.last_encounter_emit_at == 0 || now - parser.last_encounter_emit_at >= 100),
        update_due(parser, now) ==> flushed(parser, now) == (ParserModel {
            last_encounter_emit_at: now,
            encounter_update_pending: false,
            ..parser
        }),
        !update_due(parser, now) ==> flushed(parser, now) == parser,
{
}

/// Whatever is taken in waits to be sent, unless it is sent at once.
pub proof fn law_reports_wait_to_be_sent(
    parser: ParserModel,
    now: i64,
    hit: DamageEvent,
    death: OnDeathEvent,
    message: Message,
)
    ensures
        !is_no_players_hit(hit) ==> ({
            let after = after_damage_event(parser, now, hit);
            after.encounter_update_pending || after.last_encounter_emit_at == now
        }),
        ({
            let after = after_death_event(parser, now, death);
            after.encounter_update_pending || after.last_encounter_emit_at == now
        }),
        message is OnUpdateSBA || message is OnAttemptSBA || message is OnPerformSBA
            || message is OnContinueSBAChain ==> ({
            let after = after_sba_report(parser, now, message);
            after.encounter_update_pending || after.last_encounter_emit_at == now
        }),
{
}

} // verus!
