//! What holds of the accounts of the players: who is credited with what.

use vstd::prelude::*;

use crate::constants::{EnemyType, ID_ACTOR_TYPE, ID_TRANSFORMATION_ACTOR_TYPE};
use crate::derived::{after_damage, DerivedModel, ParserStatus};
use crate::encounter::PlayerDataModel;
use crate::float32::Float32;
use crate::parser::attribution::{
    adjusted, cap_enabled, is_id, is_only_id, observed_in, observed_parent, owner_of, parents_in,
    parents_with, resolved,
};
use crate::parser::live::{
    after_damage_event, after_death_event, after_gauge_event, damage_taken, engaged, ignored, running,
};
use crate::parser::replay::{
    replay, replay_rules, replay_start, replay_step, reparsed, Replayed, ReplayRules,
};
use crate::parser::ParserModel;
use crate::player_state::{hit_of, Hit, PlayerModel};
use crate::protocol::{DamageEvent, Message, OnDeathEvent};

verus! {

/// Players are kept apart by their index, whatever their characters: a hit changes the
/// account of its owner alone.
pub proof fn law_players_are_kept_apart(state: DerivedModel, now: i64, hit: Hit, other: u32)
    requires
        other != hit.event.source.parent_index,
    ensures
        after_damage(state, now, hit).party.contains_key(other) == state.party.contains_key(other),
        state.party.contains_key(other) ==> after_damage(state, now, hit).party[other]
            == state.party[other],
{
}

/// A hit of a transformation that nothing is known of goes to the only Id in the party; where
/// there are two, nobody guesses.
pub proof fn law_no_guess_among_two(
    event: DamageEvent,
    players: Seq<Option<PlayerDataModel>>,
    parents: Map<u32, u32>,
    a: int,
    b: int,
)
    requires
        0 <= a < players.len(),
        0 <= b < players.len(),
        is_id(players[a]),
        is_id(players[b]),
        event.source.actor_type == ID_TRANSFORMATION_ACTOR_TYPE,
        event.source.parent_actor_type != ID_ACTOR_TYPE,
        !parents.contains_key(event.source.index),
    ensures
        a != b ==> resolved(event, players, parents) == event,
        is_only_id(players, a) ==> resolved(event, players, parents).source.parent_index
            == players[a]->0.actor_index,
{
    if is_only_id(players, a) {
        let i = choose|i: int| is_only_id(players, i);
        assert(is_only_id(players, i));
        assert(is_id(players[i]));
    }
}

/// Once a hit shows whom a transformation belongs to that was in the party on its own, all
/// its hits in the log count for the owner.
pub proof fn law_late_owner_takes_all(parser: ParserModel, now: i64, event: DamageEvent, i: int)
    requires
        parser.status == ParserStatus::InProgress,
        !ignored(event),
        observed_parent(event) is Some,
        !parser.id_transformation_parents.contains_key(event.source.index),
        !parents_in(parser.encounter.raw_event_log).contains_key(event.source.index),
        parser.derived_state.party.contains_key(event.source.index),
    ensures
        ({
            let after = after_damage_event(parser, now, event);
            let log = after.encounter.raw_event_log;
            &&& owner_of(after.id_transformation_parents, event.source.index)
                == event.source.parent_index
            &&& after.derived_state == reparsed(after, true, Seq::empty()).derived_state
            &&& 0 <= i < log.len() ==> (log[i].1 matches Message::DamageEvent(hit)
                ==> hit.source.actor_type == ID_TRANSFORMATION_ACTOR_TYPE && hit.source.index
                == event.source.index ==> adjusted(
                hit,
                after.encounter.player_data,
                after.id_transformation_parents,
            ).source.parent_index == event.source.parent_index)
        }),
{
    let log = parser.encounter.raw_event_log;
    let parents = parents_with(parser.id_transformation_parents, observed_parent(event));
    let hit = adjusted(event, parser.encounter.player_data, parents);
    let entry = (now, Message::DamageEvent(hit));
    assert(log.push(entry).drop_last() == log);
    assert(observed_in(entry.1) == observed_parent(event));
    assert(damage_taken(engaged(parser, now), now, event).id_transformation_parents == parents_in(
        log.push(entry),
    ));
}

/// Whether no hit of players without a trusted damage cap counts as one with a known cap.
pub open spec fn caps_are_trusted(state: DerivedModel, players: Seq<Option<PlayerDataModel>>) -> bool {
    forall|index: u32| #[trigger]
        state.party.contains_key(index) && !cap_enabled(players, index) ==> {
            &&& state.party[index].cap_known_hits == 0
            &&& state.party[index].capped_hits == 0
        }
}

proof fn lemma_step_caps(state: Replayed, rules: ReplayRules, entry: (i64, Message))
    requires
        caps_are_trusted(state.derived, rules.players),
    ensures
        caps_are_trusted(replay_step(state, rules, entry).derived, rules.players),
{
    let after = replay_step(state, rules, entry).derived;
    assert forall|index: u32| #[trigger]
        after.party.contains_key(index) && !cap_enabled(rules.players, index) implies {
        &&& after.party[index].cap_known_hits == 0
        &&& after.party[index].capped_hits == 0
    } by {
        if state.derived.party.contains_key(index) {
            assert(state.derived.party[index].cap_known_hits == 0);
        }
    }
}

proof fn lemma_replay_caps(start: DerivedModel, rules: ReplayRules, log: Seq<(i64, Message)>)
    requires
        caps_are_trusted(start, rules.players),
    ensures
        caps_are_trusted(replay(start, rules, log).derived, rules.players),
    decreases log.len(),
{
    if log.len() > 0 {
        lemma_replay_caps(start, rules, log.drop_last());
        lemma_step_caps(replay(start, rules, log.drop_last()), rules, log.last());
    }
}

/// Parsing again counts no caps of players whose caps cannot be trusted, whatever the log
/// holds.
pub proof fn law_reparse_trusts_no_other_caps(
    parser: ParserModel,
    gauges: bool,
    targets: Seq<EnemyType>,
)
    ensures
        caps_are_trusted(
            reparsed(parser, gauges, targets).derived_state,
            parser.encounter.player_data,
        ),
{
    lemma_replay_caps(
        replay_start(parser.encounter.raw_event_log, parser.status),
        replay_rules(parser, gauges, targets),
        parser.encounter.raw_event_log,
    );
}

/// Taking in a hit counts no cap of a player whose caps cannot be trusted.
pub proof fn law_hits_trust_no_other_caps(parser: ParserModel, now: i64, event: DamageEvent)
    requires
        caps_are_trusted(parser.derived_state, parser.encounter.player_data),
    ensures
        caps_are_trusted(
            after_damage_event(parser, now, event).derived_state,
            parser.encounter.player_data,
        ),
{
    if !ignored(event) {
        let players = parser.encounter.player_data;
        let start = engaged(parser, now);
        let parents = parents_with(start.id_transformation_parents, observed_parent(event));
        let hit = adjusted(event, players, parents);
        let next = ParserModel {
            encounter: after_damage_event(parser, now, event).encounter,
            id_transformation_parents: parents,
            ..start
        };
        law_reparse_trusts_no_other_caps(next, true, Seq::empty());
        let after = after_damage(start.derived_state, now, hit_of(hit, Seq::empty()));
        assert(caps_are_trusted(after, players)) by {
            assert forall|index: u32| #[trigger]
                after.party.contains_key(index) && !cap_enabled(players, index) implies {
                &&& after.party[index].cap_known_hits == 0
                &&& after.party[index].capped_hits == 0
            } by {
                if start.derived_state.party.contains_key(index) {
                    assert(parser.derived_state.party.contains_key(index));
                }
            }
        }
        let taken = damage_taken(start, now, event);
        assert forall|index: u32| #[trigger]
            taken.derived_state.party.contains_key(index) && !cap_enabled(players, index) implies {
            &&& taken.derived_state.party[index].cap_known_hits == 0
            &&& taken.derived_state.party[index].capped_hits == 0
        } by {
            assert(after.party.contains_key(index) || reparsed(
                next,
                true,
                Seq::empty(),
            ).derived_state.party.contains_key(index));
        }
    }
}

/// The deaths that were counted for an actor.
pub open spec fn count_of(deaths: Map<u32, u32>, index: u32) -> u32 {
    if deaths.contains_key(index) {
        deaths[index]
    } else {
        0
    }
}

/// Whether every player in the party shows the deaths that were counted for it.
pub open spec fn deaths_are_shown(state: DerivedModel, deaths: Map<u32, u32>) -> bool {
    forall|index: u32| #[trigger]
        state.party.contains_key(index) ==> state.party[index].deaths == count_of(deaths, index)
}

proof fn lemma_step_deaths(state: Replayed, rules: ReplayRules, entry: (i64, Message))
    requires
        deaths_are_shown(state.derived, state.deaths),
    ensures
        deaths_are_shown(
            replay_step(state, rules, entry).derived,
            replay_step(state, rules, entry).deaths,
        ),
{
    let after = replay_step(state, rules, entry);
    assert forall|index: u32| #[trigger]
        after.derived.party.contains_key(index) implies after.derived.party[index].deaths
        == count_of(after.deaths, index) by {
        if state.derived.party.contains_key(index) {
            assert(state.derived.party[index].deaths == count_of(state.deaths, index));
        }
    }
}

proof fn lemma_replay_deaths_shown(start: DerivedModel, rules: ReplayRules, log: Seq<(i64, Message)>)
    requires
        start.party == Map::<u32, PlayerModel>::empty(),
    ensures
        deaths_are_shown(replay(start, rules, log).derived, replay(start, rules, log).deaths),
    decreases log.len(),
{
    if log.len() > 0 {
        lemma_replay_deaths_shown(start, rules, log.drop_last());
        lemma_step_deaths(replay(start, rules, log.drop_last()), rules, log.last());
    }
}

/// After parsing again, every player shows the deaths that were counted for it, even those
/// from before its first hit.
pub proof fn law_reparse_shows_deaths(parser: ParserModel, gauges: bool, targets: Seq<EnemyType>)
    ensures
        deaths_are_shown(
            reparsed(parser, gauges, targets).derived_state,
            reparsed(parser, gauges, targets).death_counts,
        ),
{
    lemma_replay_deaths_shown(
        replay_start(parser.encounter.raw_event_log, parser.status),
        replay_rules(parser, gauges, targets),
        parser.encounter.raw_event_log,
    );
}

/// Taking in a death, a hit or a gauge leaves every player with the deaths that were counted
/// for it.
pub proof fn law_live_deaths_are_shown(
    parser: ParserModel,
    now: i64,
    death: OnDeathEvent,
    hit: DamageEvent,
    message: Message,
    actor_index: u32,
    sba: Float32,
)
    requires
        deaths_are_shown(parser.derived_state, parser.death_counts),
    ensures
        ({
            let after = after_death_event(parser, now, death);
            deaths_are_shown(after.derived_state, after.death_counts)
        }),
        ({
            let after = after_damage_event(parser, now, hit);
            deaths_are_shown(after.derived_state, after.death_counts)
        }),
        ({
            let after = after_gauge_event(parser, now, message, actor_index, sba);
            deaths_are_shown(after.derived_state, after.death_counts)
        }),
{
    let start = running(parser, now);
    assert(deaths_are_shown(start.derived_state, start.death_counts)) by {
        assert forall|index: u32| #[trigger]
            start.derived_state.party.contains_key(index) implies start.derived_state.party[index].deaths
            == count_of(start.death_counts, index) by {
            assert(parser.derived_state.party.contains_key(index));
        }
    }
    let dead = after_death_event(parser, now, death);
    assert forall|index: u32| #[trigger]
        dead.derived_state.party.contains_key(index) implies dead.derived_state.party[index].deaths
        == count_of(dead.death_counts, index) by {
        assert(start.derived_state.party.contains_key(index));
    }
    let gauged = after_gauge_event(parser, now, message, actor_index, sba);
    assert forall|index: u32| #[trigger]
        gauged.derived_state.party.contains_key(index) implies gauged.derived_state.party[index].deaths
        == count_of(gauged.death_counts, index) by {
        assert(parser.derived_state.party.contains_key(index));
    }
    if !ignored(hit) {
        let start = engaged(parser, now);
        let parents = parents_with(start.id_transformation_parents, observed_parent(hit));
        let next = ParserModel {
            encounter: after_damage_event(parser, now, hit).encounter,
            id_transformation_parents: parents,
            ..start
        };
        law_reparse_shows_deaths(next, true, Seq::empty());
        let taken = damage_taken(start, now, hit);
        let counted = adjusted(hit, start.encounter.player_data, parents);
        let after = after_damage(start.derived_state, now, hit_of(counted, Seq::empty()));
        assert forall|index: u32| #[trigger]
            taken.derived_state.party.contains_key(index) implies taken.derived_state.party[index].deaths
            == count_of(taken.death_counts, index) by {
            let again = reparsed(next, true, Seq::empty());
            assert(after.party.contains_key(index) || again.derived_state.party.contains_key(index));
            if start.derived_state.party.contains_key(index) {
                assert(start.derived_state.party[index].deaths == count_of(
                    start.death_counts,
                    index,
                ));
            }
        }
    }
}

} // verus!
