//! When an encounter starts and ends: with its first and its last hit.

use vstd::prelude::*;

use crate::constants::EnemyType;
use crate::derived::{DerivedModel, ParserStatus};
use crate::float32::Float32;
use crate::parser::attribution::{adjusted, observed_parent, parents_with};
use crate::parser::laws::{damage_sum, law_reparse_totals};
use crate::parser::live::{
    after_damage_event, after_death_event, after_gauge_event, can_take_damage, engaged, ignored,
    lemma_log_grows, logged, running,
};
use crate::parser::replay::{entry_ok, replay, replay_rules, replay_start, reparsed, ReplayRules};
use crate::parser::{first_hit_time, first_time, ParserModel};
use crate::player_state::HIT_LIMIT;
use crate::protocol::{DamageEvent, Message, OnDeathEvent};

verus! {

/// The time of the last hit of a log, if there is one.
pub open spec fn last_hit_time(log: Seq<(i64, Message)>) -> Option<i64>
    decreases log.len(),
{
    if log.len() == 0 {
        None
    } else if log.last().1 is DamageEvent {
        Some(log.last().0)
    } else {
        last_hit_time(log.drop_last())
    }
}

/// When the encounter of a log ends: with its last hit, or when it starts if there is none.
pub open spec fn last_time(log: Seq<(i64, Message)>) -> i64 {
    match last_hit_time(log) {
        Some(time) => time,
        None => first_time(log),
    }
}

proof fn lemma_hits(log: Seq<(i64, Message)>)
    ensures
        first_hit_time(log) is Some <==> last_hit_time(log) is Some,
    decreases log.len(),
{
    if log.len() > 0 {
        lemma_hits(log.drop_last());
    }
}

proof fn lemma_replay_times(start: DerivedModel, rules: ReplayRules, log: Seq<(i64, Message)>)
    ensures
        replay(start, rules, log).derived.start_time == start.start_time,
        replay(start, rules, log).derived.end_time == match last_hit_time(log) {
            Some(time) => time,
            None => start.end_time,
        },
    decreases log.len(),
{
    if log.len() > 0 {
        lemma_replay_times(start, rules, log.drop_last());
    }
}

/// After parsing again, the encounter starts with the first hit of the log and ends with the
/// last, whichever of them count.
pub proof fn law_reparse_times(parser: ParserModel, gauges: bool, targets: Seq<EnemyType>)
    ensures
        reparsed(parser, gauges, targets).derived_state.start_time == first_time(
            parser.encounter.raw_event_log,
        ),
        reparsed(parser, gauges, targets).derived_state.end_time == last_time(
            parser.encounter.raw_event_log,
        ),
{
    let log = parser.encounter.raw_event_log;
    lemma_replay_times(
        replay_start(log, parser.status),
        replay_rules(parser, gauges, targets),
        log,
    );
}

/// Whether the times of a running encounter are those of its log, once there was damage.
pub open spec fn times_match(parser: ParserModel) -> bool {
    let log = parser.encounter.raw_event_log;
    parser.status == ParserStatus::InProgress ==> {
        &&& parser.derived_state.total_damage > 0 <==> first_hit_time(log) is Some
        &&& parser.derived_state.total_damage > 0 ==> {
            &&& parser.derived_state.start_time == first_time(log)
            &&& parser.derived_state.end_time == last_time(log)
        }
    }
}

proof fn lemma_damage_sum_positive(log: Seq<(i64, Message)>)
    requires
        forall|i: int|
            0 <= i < log.len() ==> ((#[trigger] log[i]).1 matches Message::DamageEvent(event)
                ==> event.damage >= 0),
    ensures
        damage_sum(log, Seq::empty()) >= 0,
    decreases log.len(),
{
    if log.len() > 0 {
        let before = log.drop_last();
        assert forall|i: int| 0 <= i < before.len() implies ((#[trigger] before[i]).1 matches
            Message::DamageEvent(event) ==> event.damage >= 0) by {
            assert(before[i] == log[i]);
        }
        lemma_damage_sum_positive(before);
        assert(log[log.len() - 1] == log.last());
    }
}

/// Taking in a hit keeps the times those of the log: the first hit starts the encounter, even
/// if someone died before it.
pub proof fn law_hits_keep_times(parser: ParserModel, now: i64, event: DamageEvent)
    requires
        can_take_damage(parser, now),
        times_match(parser),
    ensures
        times_match(after_damage_event(parser, now, event)),
{
    if !ignored(event) {
        let start = engaged(parser, now);
        let log = start.encounter.raw_event_log;
        let parents = parents_with(start.id_transformation_parents, observed_parent(event));
        let hit = adjusted(event, start.encounter.player_data, parents);
        let entry = (now, Message::DamageEvent(hit));
        let longer = log.push(entry);
        assert(longer.drop_last() == log);
        lemma_hits(log);
        lemma_log_grows(log, now, entry.1);
        let next = logged(ParserModel { id_transformation_parents: parents, ..start }, now, entry.1);
        law_reparse_times(next, true, Seq::empty());
        law_reparse_totals(next, true, Seq::empty());
        assert forall|i: int| 0 <= i < log.len() implies ((#[trigger] log[i]).1 matches
            Message::DamageEvent(event) ==> event.damage >= 0) by {
            assert(entry_ok(log[i], first_time(log)));
        }
        lemma_damage_sum_positive(log);
        assert(start.derived_state.total_damage <= log.len() * HIT_LIMIT);
        assert(start.derived_state.total_damage + hit.damage <= u64::MAX);
    }
}

/// Taking in a death keeps the times those of the log.
pub proof fn law_deaths_keep_times(parser: ParserModel, now: i64, event: OnDeathEvent)
    requires
        times_match(parser),
    ensures
        times_match(after_death_event(parser, now, event)),
{
    let log = running(parser, now).encounter.raw_event_log;
    assert(log.push((now, Message::OnDeathEvent(event))).drop_last() == log);
    lemma_hits(log);
}

/// Taking in a gauge keeps the times those of the log.
pub proof fn law_gauges_keep_times(
    parser: ParserModel,
    now: i64,
    message: Message,
    actor_index: u32,
    sba: Float32,
)
    requires
        times_match(parser),
        !(message is DamageEvent),
    ensures
        times_match(after_gauge_event(parser, now, message, actor_index, sba)),
{
    let log = parser.encounter.raw_event_log;
    assert(log.push((now, message)).drop_last() == log);
    lemma_hits(log);
}

/// An encounter that is parsed again lasts as long as it did when it was taken in.
pub proof fn law_parsed_again_lasts_as_long(parser: ParserModel, gauges: bool, targets: Seq<EnemyType>)
    requires
        parser.status == ParserStatus::InProgress,
        parser.derived_state.total_damage > 0,
        times_match(parser),
    ensures
        reparsed(parser, gauges, targets).derived_state.start_time
            == parser.derived_state.start_time,
        reparsed(parser, gauges, targets).derived_state.end_time == parser.derived_state.end_time,
{
    law_reparse_times(parser, gauges, targets);
}

} // verus!
