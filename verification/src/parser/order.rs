//! What taking in reports asks of a parser, and that it is kept from one report to the next.

use vstd::prelude::*;

use crate::clock::MAX_UTC_MILLIS;
use crate::constants::EnemyType;
use crate::derived::{
    after_damage, comparable, lemma_derived_bounded, lemma_derived_bounded_more,
    lemma_setters_bounded, ParserStatus,
};
use crate::encounter::PlayerDataModel;
use crate::float32::Float32;
use crate::parser::attribution::{adjusted, deaths_after, observed_parent, owner_of, parents_with};
use crate::parser::live::{
    after_damage_event, after_death_event, after_gauge_event, always_has_room, can_flush,
    can_take_damage, engaged, flushed, forgotten, has_room, ignored, lemma_log_grows, logged, near,
    running, with_status,
};
use crate::parser::party::with_player;
use crate::parser::replay::{lemma_reparsed_sums, log_ok, reparsed, sums_ok};
use crate::parser::save::{after_save, area_entered, area_prepared, finished, quest_completed};
use crate::parser::times::{last_hit_time, law_reparse_times};
use crate::parser::{empty_parser, lemma_first_time_is_reported, ParserModel};
use crate::player_state::{hit_of, LOG_LIMIT};
use crate::protocol::{AreaEnterEvent, DamageEvent, Message, OnDeathEvent, QuestCompleteEvent};

verus! {

/// Whether the clock may show a time.
pub open spec fn on_clock(time: i64) -> bool {
    0 <= time <= MAX_UTC_MILLIS
}

/// Whether the clock may show the times of all reports of a log.
pub open spec fn log_on_clock(log: Seq<(i64, Message)>) -> bool {
    forall|i: int| 0 <= i < log.len() ==> on_clock((#[trigger] log[i]).0)
}

/// A parser that is in order: its totals add up, and the clock may show every time that it
/// has noted.
pub open spec fn in_order(parser: ParserModel) -> bool {
    &&& sums_ok(parser)
    &&& log_on_clock(parser.encounter.raw_event_log)
    &&& on_clock(parser.derived_state.start_time)
    &&& on_clock(parser.derived_state.end_time)
    &&& on_clock(parser.last_encounter_emit_at)
}

/// Whether a parser has room for a report that starts a new encounter unless one is in
/// progress.
pub open spec fn has_place(parser: ParserModel) -> bool {
    parser.status == ParserStatus::InProgress ==> parser.encounter.raw_event_log.len() < LOG_LIMIT
}

/// How many reports a parser holds.
pub open spec fn report_count(parser: ParserModel) -> nat {
    parser.encounter.raw_event_log.len()
}

/// A new parser is in order.
pub proof fn law_starts_in_order()
    ensures
        in_order(empty_parser()),
        report_count(empty_parser()) == 0,
{
}

/// A parser that is in order can take in whatever is reported, whatever the clock shows, as
/// long as there is room in the log; and what it has taken in can be sent, saved and parsed
/// again.
pub proof fn law_in_order_is_enough(parser: ParserModel)
    requires
        in_order(parser),
    ensures
        forall|now: i64| on_clock(now) ==> #[trigger] can_flush(parser, now),
        has_place(parser) ==> forall|now: i64|
            on_clock(now) ==> #[trigger] can_take_damage(parser, now),
        report_count(parser) < LOG_LIMIT ==> always_has_room(parser),
        forall|now: i64|
            on_clock(now) ==> #[trigger] comparable(parser.derived_state.end_time, now),
        comparable(parser.derived_state.start_time, parser.derived_state.end_time),
        log_ok(parser.encounter.raw_event_log),
{
    let log = parser.encounter.raw_event_log;
    assert forall|now: i64| on_clock(now) && log.len() < LOG_LIMIT implies #[trigger] has_room(
        parser,
        now,
    ) by {
        assert forall|i: int| 0 <= i < log.len() implies #[trigger] near(log[i], now) by {
            assert(on_clock(log[i].0));
        }
    }
    assert forall|now: i64| on_clock(now) && has_place(parser) implies #[trigger] can_take_damage(
        parser,
        now,
    ) by {
        if parser.status == ParserStatus::InProgress {
            assert(has_room(parser, now));
        }
    }
}

/// One more report at a time that the clock shows keeps a log on the clock.
proof fn lemma_log_stays_on_clock(log: Seq<(i64, Message)>, now: i64, message: Message)
    requires
        log_on_clock(log),
        on_clock(now),
    ensures
        log_on_clock(log.push((now, message))),
{
    let longer = log.push((now, message));
    assert forall|i: int| 0 <= i < longer.len() implies on_clock((#[trigger] longer[i]).0) by {
        if i < log.len() {
            assert(longer[i] == log[i]);
        }
    }
}

/// The last hit of a log is one of its reports.
proof fn lemma_last_hit_is_reported(log: Seq<(i64, Message)>) -> (at: int)
    requires
        last_hit_time(log) is Some,
    ensures
        0 <= at < log.len(),
        last_hit_time(log) == Some(log[at].0),
    decreases log.len(),
{
    if log.last().1 is DamageEvent {
        log.len() - 1
    } else {
        lemma_last_hit_is_reported(log.drop_last())
    }
}

/// Parsing again keeps a parser in order.
pub proof fn law_parsing_again_keeps_order(
    parser: ParserModel,
    gauges: bool,
    targets: Seq<EnemyType>,
)
    requires
        log_ok(parser.encounter.raw_event_log),
        log_on_clock(parser.encounter.raw_event_log),
        on_clock(parser.last_encounter_emit_at),
    ensures
        in_order(reparsed(parser, gauges, targets)),
        report_count(reparsed(parser, gauges, targets)) == report_count(parser),
{
    let log = parser.encounter.raw_event_log;
    lemma_reparsed_sums(parser, gauges, targets);
    law_reparse_times(parser, gauges, targets);
    if log.len() > 0 {
        let first = lemma_first_time_is_reported(log);
        assert(on_clock(log[first].0));
    }
    if last_hit_time(log) is Some {
        let last = lemma_last_hit_is_reported(log);
        assert(on_clock(log[last].0));
    }
}

/// Taking in a hit keeps a parser in order.
pub proof fn law_hits_keep_order(parser: ParserModel, now: i64, event: DamageEvent)
    requires
        in_order(parser),
        has_place(parser),
        on_clock(now),
    ensures
        in_order(after_damage_event(parser, now, event)),
        report_count(after_damage_event(parser, now, event)) <= report_count(parser) + 1,
{
    if !ignored(event) {
        law_in_order_is_enough(parser);
        assert(can_take_damage(parser, now));
        let start = engaged(parser, now);
        let log = start.encounter.raw_event_log;
        let parents = parents_with(start.id_transformation_parents, observed_parent(event));
        let hit = adjusted(event, start.encounter.player_data, parents);
        let message = Message::DamageEvent(hit);
        lemma_log_grows(log, now, message);
        lemma_log_stays_on_clock(log, now, message);
        let next = logged(ParserModel { id_transformation_parents: parents, ..start }, now, message);
        law_parsing_again_keeps_order(next, true, Seq::empty());
        let full = hit_of(hit, Seq::empty());
        lemma_derived_bounded(start.derived_state, now, full, log.len());
        let actor = hit.source.parent_index;
        lemma_setters_bounded(
            after_damage(start.derived_state, now, full),
            actor,
            Float32 { bits: 0 },
            start.death_counts[actor],
            log.len() + 1,
        );
    }
}

/// Taking in a gauge keeps a parser in order.
pub proof fn law_gauges_keep_order(
    parser: ParserModel,
    now: i64,
    message: Message,
    actor_index: u32,
    sba: Float32,
)
    requires
        in_order(parser),
        report_count(parser) < LOG_LIMIT,
        on_clock(now),
        !(message is DamageEvent),
    ensures
        in_order(after_gauge_event(parser, now, message, actor_index, sba)),
        report_count(after_gauge_event(parser, now, message, actor_index, sba)) == report_count(
            parser,
        ) + 1,
{
    law_in_order_is_enough(parser);
    assert(has_room(parser, now));
    let log = parser.encounter.raw_event_log;
    lemma_log_grows(log, now, message);
    lemma_log_stays_on_clock(log, now, message);
    lemma_derived_bounded_more(parser.derived_state, log.len(), log.len() + 1);
    lemma_setters_bounded(parser.derived_state, actor_index, sba, 0, log.len() + 1);
}

/// Taking in a death keeps a parser in order.
pub proof fn law_deaths_keep_order(parser: ParserModel, now: i64, event: OnDeathEvent)
    requires
        in_order(parser),
        has_place(parser),
        on_clock(now),
    ensures
        in_order(after_death_event(parser, now, event)),
        report_count(after_death_event(parser, now, event)) <= report_count(parser) + 1,
{
    let start = running(parser, now);
    law_in_order_is_enough(start);
    assert(has_room(start, now));
    let log = start.encounter.raw_event_log;
    let message = Message::OnDeathEvent(event);
    lemma_log_grows(log, now, message);
    lemma_log_stays_on_clock(log, now, message);
    lemma_derived_bounded_more(start.derived_state, log.len(), log.len() + 1);
    let actor = owner_of(start.id_transformation_parents, event.actor_index);
    let deaths = deaths_after(start.death_counts, actor, event.death_counter, event.is_delta);
    lemma_setters_bounded(
        start.derived_state,
        actor,
        Float32 { bits: 0 },
        deaths[actor],
        log.len() + 1,
    );
}

/// Sending an update, seating a player, changing the status, forgetting, and ending or saving
/// an encounter keep a parser in order.
pub proof fn law_the_rest_keeps_order(
    parser: ParserModel,
    now: i64,
    status: ParserStatus,
    player: PlayerDataModel,
    party_index: u8,
    area: AreaEnterEvent,
    quest: QuestCompleteEvent,
)
    requires
        in_order(parser),
        on_clock(now),
    ensures
        in_order(flushed(parser, now)),
        in_order(with_player(parser, player, party_index)),
        in_order(with_status(parser, status)),
        in_order(forgotten(parser)),
        in_order(after_save(parser)),
        in_order(finished(parser)),
        in_order(finished(flushed(parser, now))),
        in_order(area_entered(parser, area)),
        in_order(area_prepared(parser)),
        in_order(quest_completed(parser, quest)),
        report_count(flushed(parser, now)) == report_count(parser),
        report_count(with_player(parser, player, party_index)) == report_count(parser),
        report_count(with_status(parser, status)) == report_count(parser),
        report_count(forgotten(parser)) == 0,
        report_count(after_save(parser)) == report_count(parser),
        report_count(finished(parser)) == report_count(parser),
        report_count(area_entered(parser, area)) == report_count(parser),
        report_count(area_prepared(parser)) == report_count(parser),
        report_count(quest_completed(parser, quest)) == report_count(parser),
{
}

} // verus!
