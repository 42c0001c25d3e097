//! The stun of an encounter: that of its hits, and that of its players.

use vstd::prelude::*;

use crate::constants::EnemyType;
use crate::derived::{after_damage, with_deaths, with_sba, DerivedModel};
use crate::float32::{Float32, ONE_THOUSAND_BITS};
use crate::parser::attribution::{adjusted, deaths_after, observed_parent, owner_of, parents_with};
use crate::parser::live::{
    after_damage_event, after_death_event, after_gauge_event, can_take_damage, damage_taken,
    engaged, ignored, lemma_log_grows, logged, running,
};
use crate::parser::replay::{
    log_ok, reparsed, replay, replay_rules, replay_start, replay_step, ReplayRules, Replayed,
};
use crate::parser::tally::{hits_where, law_reparse_tallies, on_target, stuns_of};
use crate::parser::totals::{lemma_sum_insert, sum_of};
use crate::parser::ParserModel;
use crate::player_state::{hit_among, hit_of, new_player, player_after, Hit, PlayerModel};
use crate::protocol::{DamageEvent, Message, OnDeathEvent};

verus! {

/// Whether the stun values of an encounter are those of the hits in its log, one for one and
/// in their order.
pub open spec fn stuns_match(parser: ParserModel) -> bool {
    parser.derived_state.stun_values == stuns_of(
        hits_where(parser.encounter.raw_event_log, on_target(Seq::empty())),
    )
}

/// Parsing again gives the stun values of the hits in the log.
pub proof fn law_reparse_matches_stuns(parser: ParserModel, gauges: bool)
    requires
        log_ok(parser.encounter.raw_event_log),
    ensures
        stuns_match(reparsed(parser, gauges, Seq::empty())),
{
    law_reparse_tallies(parser, gauges, Seq::empty(), 0, 0);
}

/// Taking in a hit keeps the stun values those of the hits in the log.
pub proof fn law_hits_keep_stuns(parser: ParserModel, now: i64, event: DamageEvent)
    requires
        can_take_damage(parser, now),
        stuns_match(parser),
    ensures
        stuns_match(after_damage_event(parser, now, event)),
{
    if !ignored(event) {
        let start = engaged(parser, now);
        let log = start.encounter.raw_event_log;
        let all = on_target(Seq::<EnemyType>::empty());
        assert(stuns_match(start)) by {
            assert(hits_where(Seq::<(i64, Message)>::empty(), all) == Seq::<DamageEvent>::empty());
            assert(stuns_of(Seq::<DamageEvent>::empty()) =~= Seq::<Float32>::empty());
        }
        let parents = parents_with(start.id_transformation_parents, observed_parent(event));
        let hit = adjusted(event, start.encounter.player_data, parents);
        let message = Message::DamageEvent(hit);
        lemma_log_grows(log, now, message);
        let next = logged(ParserModel { id_transformation_parents: parents, ..start }, now, message);
        law_reparse_matches_stuns(next, true);
        let longer = log.push((now, message));
        assert(longer.drop_last() == log);
        assert(hits_where(longer, all) == hits_where(log, all).push(hit));
        assert(stuns_of(hits_where(log, all).push(hit)) =~= stuns_of(hits_where(log, all)).push(
            hit_of(hit, Seq::empty()).stun_damage,
        ));
    }
}

/// Taking in a death or a gauge keeps the stun values those of the hits in the log.
pub proof fn law_others_keep_stuns(
    parser: ParserModel,
    now: i64,
    death: OnDeathEvent,
    message: Message,
    actor_index: u32,
    sba: Float32,
)
    requires
        stuns_match(parser),
        !(message is DamageEvent),
    ensures
        stuns_match(after_death_event(parser, now, death)),
        stuns_match(after_gauge_event(parser, now, message, actor_index, sba)),
{
    let all = on_target(Seq::<EnemyType>::empty());
    let log = parser.encounter.raw_event_log;
    assert(log.push((now, message)).drop_last() == log);
    let start = running(parser, now);
    let fresh = start.encounter.raw_event_log;
    assert(stuns_match(start)) by {
        assert(hits_where(Seq::<(i64, Message)>::empty(), all) == Seq::<DamageEvent>::empty());
        assert(stuns_of(Seq::<DamageEvent>::empty()) =~= Seq::<Float32>::empty());
    }
    assert(fresh.push((now, Message::OnDeathEvent(death))).drop_last() == fresh);
}

/// How often a value occurs.
pub open spec fn times(values: Seq<Float32>, value: Float32) -> int
    decreases values.len(),
{
    if values.len() == 0 {
        0
    } else {
        times(values.drop_last(), value) + if values.last() == value {
            1int
        } else {
            0int
        }
    }
}

/// How often a stun value occurs among the hits of each player.
pub open spec fn times_by_player(party: Map<u32, PlayerModel>, value: Float32) -> Map<u32, int> {
    party.map_values(|player: PlayerModel| times(player.stun_values, value))
}

/// Whether the stun values of an encounter are those of its players taken together: each value
/// occurs as often in the one as in all the others.
pub open spec fn stuns_add_up(state: DerivedModel) -> bool {
    &&& state.party.dom().finite()
    &&& forall|value: Float32|
        sum_of(#[trigger] times_by_player(state.party, value)) == times(state.stun_values, value)
}

/// One more hit keeps the stun of the players that of the encounter.
pub proof fn law_hits_keep_stuns_adding_up(state: DerivedModel, now: i64, hit: Hit)
    requires
        stuns_add_up(state),
    ensures
        stuns_add_up(after_damage(state, now, hit)),
{
    let after = after_damage(state, now, hit);
    let source = hit.event.source.parent_index;
    let player = if state.party.contains_key(source) {
        state.party[source]
    } else {
        new_player(hit.event)
    };
    assert forall|value: Float32|
        sum_of(#[trigger] times_by_player(after.party, value)) == times(
            after.stun_values,
            value,
        ) by {
        let before = times_by_player(state.party, value);
        let counted = times(player_after(player, hit).stun_values, value);
        let one = if hit.stun_damage == value {
            1int
        } else {
            0int
        };
        assert(player_after(player, hit).stun_values.drop_last() == player.stun_values);
        assert(after.stun_values.drop_last() == state.stun_values);
        assert(counted == times(player.stun_values, value) + one);
        assert(times(after.stun_values, value) == times(state.stun_values, value) + one);
        assert(!state.party.contains_key(source) ==> times(player.stun_values, value) == 0);
        assert(times_by_player(after.party, value) == before.insert(source, counted));
        assert(before.dom() == state.party.dom());
        lemma_sum_insert(before, source, counted);
        assert(sum_of(before) == times(state.stun_values, value));
    }
}

/// Setting a gauge or a number of deaths keeps the stun of the players that of the encounter.
pub proof fn law_setters_keep_stuns_adding_up(
    state: DerivedModel,
    index: u32,
    sba: Float32,
    deaths: u32,
)
    requires
        stuns_add_up(state),
    ensures
        stuns_add_up(with_sba(state, index, sba)),
        stuns_add_up(with_deaths(state, index, deaths)),
{
    if state.party.contains_key(index) {
        let a = with_sba(state, index, sba);
        let b = with_deaths(state, index, deaths);
        assert forall|value: Float32|
            sum_of(#[trigger] times_by_player(a.party, value)) == times(a.stun_values, value) by {
            assert(times_by_player(a.party, value) =~= times_by_player(state.party, value));
        }
        assert forall|value: Float32|
            sum_of(#[trigger] times_by_player(b.party, value)) == times(b.stun_values, value) by {
            assert(times_by_player(b.party, value) =~= times_by_player(state.party, value));
        }
    }
}

proof fn lemma_empty_stuns(state: DerivedModel)
    requires
        state.party == Map::<u32, PlayerModel>::empty(),
        state.stun_values.len() == 0,
    ensures
        stuns_add_up(state),
{
    assert forall|value: Float32|
        sum_of(#[trigger] times_by_player(state.party, value)) == times(state.stun_values, value) by {
        assert(times_by_player(state.party, value).dom() =~= Set::empty());
    }
}

proof fn lemma_step_stuns(state: Replayed, rules: ReplayRules, entry: (i64, Message))
    requires
        stuns_add_up(state.derived),
    ensures
        stuns_add_up(replay_step(state, rules, entry).derived),
{
    match entry.1 {
        Message::DamageEvent(event) => {
            let hit = adjusted(event, rules.players, rules.parents);
            let actor = hit.source.parent_index;
            let full = hit_among(hit, rules.samples);
            law_hits_keep_stuns_adding_up(state.derived, entry.0, full);
            law_setters_keep_stuns_adding_up(
                after_damage(state.derived, entry.0, full),
                actor,
                Float32 { bits: 0 },
                state.deaths[actor],
            );
            let moved = DerivedModel { end_time: entry.0, ..state.derived };
            assert(stuns_add_up(moved)) by {
                assert forall|value: Float32|
                    sum_of(#[trigger] times_by_player(moved.party, value)) == times(
                        moved.stun_values,
                        value,
                    ) by {
                    assert(times_by_player(state.derived.party, value) == times_by_player(
                        moved.party,
                        value,
                    ));
                }
            }
        },
        Message::OnUpdateSBA(event) => {
            law_setters_keep_stuns_adding_up(
                state.derived,
                owner_of(rules.parents, event.actor_index),
                event.sba_value,
                0,
            );
        },
        Message::OnAttemptSBA(event) => {
            law_setters_keep_stuns_adding_up(
                state.derived,
                owner_of(rules.parents, event.actor_index),
                Float32 { bits: ONE_THOUSAND_BITS },
                0,
            );
        },
        Message::OnPerformSBA(event) => {
            law_setters_keep_stuns_adding_up(
                state.derived,
                owner_of(rules.parents, event.actor_index),
                Float32 { bits: 0 },
                0,
            );
        },
        Message::OnDeathEvent(event) => {
            let actor = owner_of(rules.parents, event.actor_index);
            let deaths = deaths_after(state.deaths, actor, event.death_counter, event.is_delta);
            law_setters_keep_stuns_adding_up(
                state.derived,
                actor,
                Float32 { bits: 0 },
                deaths[actor],
            );
        },
        _ => {},
    }
}

proof fn lemma_replay_stuns_add_up(start: DerivedModel, rules: ReplayRules, log: Seq<(i64, Message)>)
    requires
        stuns_add_up(start),
    ensures
        stuns_add_up(replay(start, rules, log).derived),
    decreases log.len(),
{
    if log.len() > 0 {
        lemma_replay_stuns_add_up(start, rules, log.drop_last());
        lemma_step_stuns(replay(start, rules, log.drop_last()), rules, log.last());
    }
}

/// After parsing again, the stun of the players is that of the encounter.
pub proof fn law_reparse_stuns_add_up(parser: ParserModel, gauges: bool, targets: Seq<EnemyType>)
    ensures
        stuns_add_up(reparsed(parser, gauges, targets).derived_state),
{
    let start = replay_start(parser.encounter.raw_event_log, parser.status);
    lemma_empty_stuns(start);
    lemma_replay_stuns_add_up(
        start,
        replay_rules(parser, gauges, targets),
        parser.encounter.raw_event_log,
    );
}

/// Taking in a hit, a death or a gauge keeps the stun of the players that of the encounter.
pub proof fn law_live_stuns_add_up(
    parser: ParserModel,
    now: i64,
    hit: DamageEvent,
    death: OnDeathEvent,
    message: Message,
    actor_index: u32,
    sba: Float32,
)
    requires
        stuns_add_up(parser.derived_state),
    ensures
        stuns_add_up(after_damage_event(parser, now, hit).derived_state),
        stuns_add_up(after_death_event(parser, now, death).derived_state),
        stuns_add_up(after_gauge_event(parser, now, message, actor_index, sba).derived_state),
{
    law_setters_keep_stuns_adding_up(parser.derived_state, actor_index, sba, 0);
    let start = running(parser, now);
    if parser.status != crate::derived::ParserStatus::InProgress {
        lemma_empty_stuns(start.derived_state);
    }
    let actor = owner_of(start.id_transformation_parents, death.actor_index);
    let deaths = deaths_after(start.death_counts, actor, death.death_counter, death.is_delta);
    law_setters_keep_stuns_adding_up(
        start.derived_state,
        actor,
        Float32 { bits: 0 },
        deaths[actor],
    );
    if !ignored(hit) {
        let begun = engaged(parser, now);
        assert(begun.derived_state.party == start.derived_state.party);
        assert(stuns_add_up(begun.derived_state)) by {
            assert forall|value: Float32|
                sum_of(#[trigger] times_by_player(begun.derived_state.party, value)) == times(
                    begun.derived_state.stun_values,
                    value,
                ) by {
                assert(times_by_player(start.derived_state.party, value) == times_by_player(
                    begun.derived_state.party,
                    value,
                ));
            }
        }
        let parents = parents_with(begun.id_transformation_parents, observed_parent(hit));
        let counted = adjusted(hit, begun.encounter.player_data, parents);
        let next = logged(
            ParserModel { id_transformation_parents: parents, ..begun },
            now,
            Message::DamageEvent(counted),
        );
        law_reparse_stuns_add_up(next, true, Seq::empty());
        let full = hit_of(counted, Seq::empty());
        law_hits_keep_stuns_adding_up(begun.derived_state, now, full);
        let source = counted.source.parent_index;
        law_setters_keep_stuns_adding_up(
            after_damage(begun.derived_state, now, full),
            source,
            Float32 { bits: 0 },
            begun.death_counts[source],
        );
        assert(stuns_add_up(damage_taken(begun, now, hit).derived_state));
    }
}

} // verus!
