//! What a log tells of the skybound arts: when they were used, and how full the gauges were.
//!
//! Everything here is stated over the positions of the reports in the log.

use vstd::arithmetic::div_mod::{lemma_fundamental_div_mod, lemma_fundamental_div_mod_converse};
use vstd::prelude::*;

use crate::float32::Float32;
use crate::parser::attribution::owner_of;
use crate::parser::laws::law_chart_carries_levels;
use crate::parser::sba::{
    chart_len, explicit_uses, gauge_chart, gauge_in, in_party, inferred_uses, is_use, last_level,
    player_chart, sampled, sba_uses, tick,
};
use crate::parser::{first_time, Parser, ParserModel};
use crate::protocol::Message;

verus! {

/// Whether `actor` answers for actor `index`: it is its known owner, or the actor itself where
/// no owner is known.
pub open spec fn answers_for(parents: Map<u32, u32>, actor: u32, index: u32) -> bool {
    if parents.dom().contains(index) {
        actor == parents[index]
    } else {
        actor == index
    }
}

/// Whether report `i` tells the level of the gauge of `actor`.
pub open spec fn is_update(log: Seq<(i64, Message)>, parents: Map<u32, u32>, actor: u32, i: int) -> bool {
    0 <= i < log.len() && (log[i].1 matches Message::OnUpdateSBA(event) && answers_for(
        parents,
        actor,
        event.actor_index,
    ))
}

/// The level that report `i` tells.
pub open spec fn level_told(log: Seq<(i64, Message)>, i: int) -> Float32 {
    log[i].1->OnUpdateSBA_0.sba_value
}

/// Whether the gauge of `actor` fell from report `i` to report `j`, the next one of its gauge:
/// from at least 900 down to at most 100.
pub open spec fn fell(log: Seq<(i64, Message)>, parents: Map<u32, u32>, actor: u32, i: int, j: int) -> bool {
    &&& i < j
    &&& is_update(log, parents, actor, i)
    &&& is_update(log, parents, actor, j)
    &&& forall|k: int| i < k < j ==> !#[trigger] is_update(log, parents, actor, k)
    &&& (Float32 { bits: 0x4461_0000 }).at_most(level_told(log, i))
    &&& level_told(log, j).at_most(Float32 { bits: 0x42C8_0000 })
    &&& level_told(log, j).below(level_told(log, i))
}

/// Whether the gauge of `actor` falls at report `j`.
pub open spec fn falls_at(log: Seq<(i64, Message)>, parents: Map<u32, u32>, actor: u32, j: int) -> bool {
    exists|i: int| #[trigger] fell(log, parents, actor, i, j)
}

/// Whether report `i` is one of a use of a skybound art.
pub open spec fn tells_use(log: Seq<(i64, Message)>, i: int) -> bool {
    0 <= i < log.len() && (log[i].1 is OnAttemptSBA || log[i].1 is OnPerformSBA
        || log[i].1 is OnContinueSBAChain)
}

/// Whether `use_of` tells what a report tells, of the actor that answers for the reported one.
pub open spec fn retells(parents: Map<u32, u32>, report: Message, use_of: Message) -> bool {
    match report {
        Message::OnAttemptSBA(event) => use_of matches Message::OnAttemptSBA(told) && answers_for(
            parents,
            told.actor_index,
            event.actor_index,
        ),
        Message::OnPerformSBA(event) => use_of matches Message::OnPerformSBA(told) && answers_for(
            parents,
            told.actor_index,
            event.actor_index,
        ),
        Message::OnContinueSBAChain(event) => use_of matches Message::OnContinueSBAChain(told)
            && answers_for(parents, told.actor_index, event.actor_index),
        _ => false,
    }
}

/// Whether positions are in rising order.
pub open spec fn rising(at: Seq<int>) -> bool {
    forall|a: int, b: int| 0 <= a < b < at.len() ==> #[trigger] at[a] < #[trigger] at[b]
}

/// The last level of a gauge is the one that its last report tells.
proof fn lemma_last_level(log: Seq<(i64, Message)>, parents: Map<u32, u32>, actor: u32) -> (at: int)
    ensures
        match last_level(log, parents, actor) {
            Some(level) => is_update(log, parents, actor, at) && level_told(log, at) == level
                && forall|k: int| at < k < log.len() ==> !#[trigger] is_update(
                log,
                parents,
                actor,
                k,
            ),
            None => forall|k: int| !#[trigger] is_update(log, parents, actor, k),
        },
    decreases log.len(),
{
    if log.len() == 0 {
        0
    } else {
        let before = log.drop_last();
        let at = lemma_last_level(before, parents, actor);
        let last = log.len() - 1;
        assert forall|k: int| k != last implies is_update(log, parents, actor, k) == #[trigger] is_update(
            before,
            parents,
            actor,
            k,
        ) by {}
        assert forall|k: int| k != last implies #[trigger] is_update(log, parents, actor, k) == is_update(
            before,
            parents,
            actor,
            k,
        ) by {}
        if is_update(log, parents, actor, last) {
            last
        } else {
            at
        }
    }
}

/// A longer log leaves the falls before it as they are.
proof fn lemma_falls_stay(log: Seq<(i64, Message)>, parents: Map<u32, u32>, actor: u32, j: int)
    requires
        log.len() > 0,
        j < log.len() - 1,
    ensures
        falls_at(log, parents, actor, j) == falls_at(log.drop_last(), parents, actor, j),
{
    let before = log.drop_last();
    assert forall|k: int| k < log.len() - 1 implies #[trigger] is_update(log, parents, actor, k)
        == is_update(before, parents, actor, k) by {}
    if falls_at(log, parents, actor, j) {
        let i = choose|i: int| #[trigger] fell(log, parents, actor, i, j);
        assert forall|k: int| i < k < j implies !#[trigger] is_update(before, parents, actor, k) by {
            assert(!is_update(log, parents, actor, k));
        }
        assert(fell(before, parents, actor, i, j));
    }
    if falls_at(before, parents, actor, j) {
        let i = choose|i: int| #[trigger] fell(before, parents, actor, i, j);
        assert(is_update(log, parents, actor, i) && is_update(log, parents, actor, j));
        assert forall|k: int| i < k < j implies !#[trigger] is_update(log, parents, actor, k) by {
            assert(!is_update(before, parents, actor, k));
        }
        assert(fell(log, parents, actor, i, j));
    }
}

/// Where no use was reported, a use by an actor is told exactly where its gauge falls: the
/// reports of its own gauge alone decide. `at` gives the positions of the falls, oldest first.
pub proof fn law_inferred_uses_are_falls(log: Seq<(i64, Message)>, parents: Map<u32, u32>) -> (at: Seq<
    int,
>)
    ensures
        rising(at),
        at.len() == inferred_uses(log, parents).len(),
        forall|k: int|
            0 <= k < at.len() ==> {
                let told = #[trigger] inferred_uses(log, parents)[k];
                &&& 0 <= at[k] < log.len()
                &&& told.0 == log[at[k]].0
                &&& told.1 is OnPerformSBA
                &&& falls_at(log, parents, told.1->OnPerformSBA_0.actor_index, at[k])
            },
        forall|actor: u32, j: int| #[trigger] falls_at(log, parents, actor, j) ==> at.contains(j),
    decreases log.len(),
{
    if log.len() == 0 {
        Seq::empty()
    } else {
        let before = log.drop_last();
        let earlier = law_inferred_uses_are_falls(before, parents);
        let last = log.len() - 1;
        let uses = inferred_uses(log, parents);
        let known = inferred_uses(before, parents);
        let at = if uses.len() > known.len() {
            earlier.push(last)
        } else {
            earlier
        };
        match log.last().1 {
            Message::OnUpdateSBA(event) => {
                let actor = owner_of(parents, event.actor_index);
                assert(is_update(log, parents, actor, last));
                let i = lemma_last_level(before, parents, actor);
                assert forall|k: int| k < last implies #[trigger] is_update(log, parents, actor, k)
                    == is_update(before, parents, actor, k) by {}
                if let Some(previous) = last_level(before, parents, actor) {
                    assert(is_update(log, parents, actor, i));
                    assert(level_told(log, i) == previous);
                    if is_use(previous, event.sba_value) {
                        assert(fell(log, parents, actor, i, last));
                        assert(falls_at(log, parents, actor, last));
                    }
                }
                assert forall|other: u32| #[trigger] falls_at(log, parents, other, last) implies uses.len()
                    > known.len() by {
                    let j = choose|j: int| #[trigger] fell(log, parents, other, j, last);
                    assert(other == actor);
                    assert(is_update(before, parents, actor, j));
                    if j < i {
                        assert(is_update(log, parents, actor, i));
                    }
                    assert(j == i);
                }
            },
            _ => {
                assert forall|other: u32| !#[trigger] falls_at(log, parents, other, last) by {
                    assert(!is_update(log, parents, other, last));
                }
            },
        }
        assert forall|k: int| 0 <= k < at.len() implies {
            let told = #[trigger] uses[k];
            &&& 0 <= at[k] < log.len()
            &&& told.0 == log[at[k]].0
            &&& told.1 is OnPerformSBA
            &&& falls_at(log, parents, told.1->OnPerformSBA_0.actor_index, at[k])
        } by {
            if k < earlier.len() {
                assert(uses[k] == known[k]);
                lemma_falls_stay(
                    log,
                    parents,
                    known[k].1->OnPerformSBA_0.actor_index,
                    earlier[k],
                );
            }
        }
        assert forall|actor: u32, j: int| #[trigger] falls_at(log, parents, actor, j) implies at.contains(
            j,
        ) by {
            let i = choose|i: int| #[trigger] fell(log, parents, actor, i, j);
            assert(is_update(log, parents, actor, j));
            if j < last {
                lemma_falls_stay(log, parents, actor, j);
                assert(earlier.contains(j));
                let k = choose|k: int| 0 <= k < earlier.len() && earlier[k] == j;
                assert(at[k] == j);
            } else {
                assert(at[at.len() - 1] == last);
            }
        }
        assert forall|a: int, b: int| 0 <= a < b < at.len() implies #[trigger] at[a] < #[trigger] at[b] by {
            if b < earlier.len() {
                assert(earlier[a] < earlier[b]);
            } else {
                assert(0 <= known.len());
                let told = known[a];
                assert(earlier[a] < before.len());
            }
        }
        at
    }
}

/// Whether `told` tells what report `i`, one of a use, tells.
pub open spec fn retold(
    log: Seq<(i64, Message)>,
    parents: Map<u32, u32>,
    i: int,
    told: (i64, Message),
) -> bool {
    tells_use(log, i) && told.0 == log[i].0 && retells(parents, log[i].1, told.1)
}

/// The uses that were reported are told one for one, in the order of the log, of the actors
/// that answer for the reported ones. `at` gives their positions.
pub proof fn law_explicit_uses_are_reports(log: Seq<(i64, Message)>, parents: Map<u32, u32>) -> (at: Seq<
    int,
>)
    ensures
        rising(at),
        at.len() == explicit_uses(log, parents).len(),
        forall|k: int|
            0 <= k < at.len() ==> retold(
                log,
                parents,
                at[k],
                #[trigger] explicit_uses(log, parents)[k],
            ),
        forall|i: int| #[trigger] tells_use(log, i) ==> at.contains(i),
    decreases log.len(),
{
    if log.len() == 0 {
        Seq::empty()
    } else {
        let before = log.drop_last();
        let earlier = law_explicit_uses_are_reports(before, parents);
        let last = log.len() - 1;
        let uses = explicit_uses(log, parents);
        let known = explicit_uses(before, parents);
        let at = if uses.len() > known.len() {
            earlier.push(last)
        } else {
            earlier
        };
        assert forall|k: int| 0 <= k < at.len() implies retold(
            log,
            parents,
            at[k],
            #[trigger] explicit_uses(log, parents)[k],
        ) by {
            if k < earlier.len() {
                assert(uses[k] == known[k]);
                assert(retold(before, parents, earlier[k], known[k]));
            }
        }
        assert forall|i: int| #[trigger] tells_use(log, i) implies at.contains(i) by {
            if i < last {
                assert(tells_use(before, i));
                let k = choose|k: int| 0 <= k < earlier.len() && earlier[k] == i;
                assert(at[k] == i);
            } else {
                assert(at[at.len() - 1] == last);
            }
        }
        assert forall|a: int, b: int| 0 <= a < b < at.len() implies #[trigger] at[a] < #[trigger] at[b] by {
            if b < earlier.len() {
                assert(earlier[a] < earlier[b]);
            } else {
                assert(retold(before, parents, earlier[a], known[a]));
            }
        }
        at
    }
}

/// Reported uses are told wherever there is one; only a log without any has its uses worked
/// out from the gauges.
pub proof fn law_reports_come_first(log: Seq<(i64, Message)>, parents: Map<u32, u32>)
    ensures
        (exists|i: int| #[trigger] tells_use(log, i)) ==> sba_uses(log, parents) == explicit_uses(
            log,
            parents,
        ),
        (forall|i: int| !#[trigger] tells_use(log, i)) ==> sba_uses(log, parents) == inferred_uses(
            log,
            parents,
        ),
{
    let at = law_explicit_uses_are_reports(log, parents);
    if exists|i: int| #[trigger] tells_use(log, i) {
        let i = choose|i: int| #[trigger] tells_use(log, i);
        assert(at.contains(i));
    } else if at.len() > 0 {
        assert(retold(log, parents, at[0], explicit_uses(log, parents)[0]));
        assert(tells_use(log, at[0]));
    }
}

/// Whether report `i` shows the gauge of `actor` at `level`: as it tells, full where an art is
/// attempted, and empty where one was performed or a chain was continued.
pub open spec fn shows(
    log: Seq<(i64, Message)>,
    parents: Map<u32, u32>,
    actor: u32,
    i: int,
    level: Float32,
) -> bool {
    0 <= i < log.len() && match log[i].1 {
        Message::OnUpdateSBA(event) => answers_for(parents, actor, event.actor_index) && level
            == event.sba_value,
        Message::OnAttemptSBA(event) => answers_for(parents, actor, event.actor_index)
            && level.bits == 0x447A_0000,
        Message::OnPerformSBA(event) => answers_for(parents, actor, event.actor_index)
            && level.bits == 0,
        Message::OnContinueSBAChain(event) => answers_for(parents, actor, event.actor_index)
            && level.bits == 0,
        _ => false,
    }
}

/// Whether a point in time lies in interval `k`, counted from the start. Intervals of negative
/// length have one before the start of the next: the first.
pub open spec fn within(elapsed: int, interval: int, k: int) -> bool {
    if interval > 0 {
        0 <= k && k * interval <= elapsed < (k + 1) * interval
    } else {
        k == 0 && 0 <= elapsed < -interval
    }
}

/// Whether report `i` shows the gauge of `actor`, in interval `k` counted from `start`.
pub open spec fn shown_in(
    log: Seq<(i64, Message)>,
    start: i64,
    parents: Map<u32, u32>,
    actor: u32,
    interval: int,
    i: int,
    k: int,
) -> bool {
    (exists|level: Float32| #[trigger] shows(log, parents, actor, i, level)) && within(
        log[i].0 - start,
        interval,
        k,
    )
}

proof fn lemma_tick(elapsed: int, interval: int, k: int)
    requires
        interval != 0,
    ensures
        within(elapsed, interval, k) <==> 0 <= k && tick(elapsed, interval) == Some(k as nat),
{
    if interval > 0 && elapsed >= 0 {
        let q = elapsed / interval;
        lemma_fundamental_div_mod(elapsed, interval);
        let r = elapsed % interval;
        assert(q * interval <= elapsed < (q + 1) * interval) by (nonlinear_arith)
            requires
                elapsed == interval * q + r,
                0 <= r < interval,
        ;
        assert(q >= 0) by (nonlinear_arith)
            requires
                elapsed < (q + 1) * interval,
                elapsed >= 0,
                interval > 0,
        ;
        if within(elapsed, interval, k) {
            let rest = elapsed - k * interval;
            assert((k + 1) * interval == k * interval + interval) by (nonlinear_arith);
            lemma_fundamental_div_mod_converse(elapsed, interval, k, rest);
        }
    } else if interval > 0 {
        assert(0 <= k ==> k * interval >= 0) by (nonlinear_arith)
            requires
                interval > 0,
        ;
    }
}

/// In each interval, the last report of the gauge counts.
proof fn lemma_sampled(
    log: Seq<(i64, Message)>,
    start: i64,
    parents: Map<u32, u32>,
    actor: u32,
    interval: int,
    len: nat,
    j: int,
) -> (at: int)
    requires
        interval != 0,
        0 <= j < len,
    ensures
        sampled(log, start, parents, actor, interval, len).len() == len,
        match sampled(log, start, parents, actor, interval, len)[j] {
            Some(level) => shows(log, parents, actor, at, level) && shown_in(
                log,
                start,
                parents,
                actor,
                interval,
                at,
                j,
            ) && forall|i: int| #[trigger]
                shown_in(log, start, parents, actor, interval, i, j) ==> i <= at,
            None => forall|i: int| !#[trigger]
                shown_in(log, start, parents, actor, interval, i, j),
        },
    decreases log.len(),
{
    if log.len() == 0 {
        0
    } else {
        let before = log.drop_last();
        let last = log.len() - 1;
        let at = lemma_sampled(before, start, parents, actor, interval, len, j);
        assert forall|i: int, level: Float32| i != last implies #[trigger] shows(
            log,
            parents,
            actor,
            i,
            level,
        ) == shows(before, parents, actor, i, level) by {}
        assert forall|i: int| i != last implies #[trigger] shown_in(
            log,
            start,
            parents,
            actor,
            interval,
            i,
            j,
        ) == shown_in(before, start, parents, actor, interval, i, j) by {
            if shown_in(log, start, parents, actor, interval, i, j) {
                let level = choose|level: Float32| #[trigger] shows(log, parents, actor, i, level);
                assert(shows(before, parents, actor, i, level));
            }
            if shown_in(before, start, parents, actor, interval, i, j) {
                let level = choose|level: Float32| #[trigger] shows(before, parents, actor, i, level);
                assert(shows(log, parents, actor, i, level));
            }
        }
        lemma_tick(log.last().0 - start, interval, j);
        match gauge_in(log.last().1) {
            Some((index, level)) => {
                if owner_of(parents, index) == actor {
                    assert(shows(log, parents, actor, last, level));
                } else {
                    assert forall|any: Float32| !#[trigger] shows(log, parents, actor, last, any) by {}
                }
            },
            None => {
                assert forall|any: Float32| !#[trigger] shows(log, parents, actor, last, any) by {}
            },
        }
        if shown_in(log, start, parents, actor, interval, last, j) {
            last
        } else {
            at
        }
    }
}

/// The chart of an actor has, for each interval, the level that the latest report of its own
/// gauge shows: of the reports in that interval or an earlier one, the last in the log of those
/// in the latest such interval. Before any it is zero. Reports of other gauges, or from before
/// the start, change nothing.
///
/// `at` is that report and its interval.
pub proof fn law_chart_shows_latest_report(
    log: Seq<(i64, Message)>,
    parents: Map<u32, u32>,
    actor: u32,
    interval: int,
    len: nat,
    j: int,
) -> (at: Option<(int, int)>)
    requires
        interval != 0,
        0 <= j < len,
    ensures
        gauge_chart(log, parents, actor, interval, len).len() == len,
        match at {
            Some((i, k)) => {
                &&& k <= j
                &&& shown_in(log, first_time(log), parents, actor, interval, i, k)
                &&& shows(
                    log,
                    parents,
                    actor,
                    i,
                    gauge_chart(log, parents, actor, interval, len)[j],
                )
                &&& forall|i2: int, k2: int|
                    k2 <= j && #[trigger] shown_in(
                        log,
                        first_time(log),
                        parents,
                        actor,
                        interval,
                        i2,
                        k2,
                    ) ==> k2 < k || k2 == k && i2 <= i
            },
            None => {
                &&& gauge_chart(log, parents, actor, interval, len)[j].bits == 0
                &&& forall|i: int, k: int|
                    k <= j ==> !#[trigger] shown_in(
                        log,
                        first_time(log),
                        parents,
                        actor,
                        interval,
                        i,
                        k,
                    )
            },
        },
    decreases j,
{
    let start = first_time(log);
    let i = lemma_sampled(log, start, parents, actor, interval, len, j);
    law_chart_carries_levels(log, parents, actor, interval, len, j);
    if sampled(log, start, parents, actor, interval, len)[j] is Some {
        Some((i, j))
    } else if j > 0 {
        law_chart_shows_latest_report(log, parents, actor, interval, len, j - 1)
    } else {
        None
    }
}

/// In a log that is in the order of time, the chart shows the last report of the gauge that
/// came before the end of the interval.
pub proof fn law_chart_shows_last_report_in_time(
    log: Seq<(i64, Message)>,
    parents: Map<u32, u32>,
    actor: u32,
    interval: int,
    len: nat,
    j: int,
    i: int,
    level: Float32,
)
    requires
        interval > 0,
        0 <= j < len,
        forall|a: int, b: int| 0 <= a <= b < log.len() ==> #[trigger] log[a].0 <= #[trigger] log[b].0,
        shows(log, parents, actor, i, level),
        first_time(log) <= log[i].0,
        log[i].0 - first_time(log) < (j + 1) * interval,
        forall|later: int, other: Float32|
            i < later && #[trigger] shows(log, parents, actor, later, other) ==> log[later].0
                - first_time(log) >= (j + 1) * interval,
    ensures
        gauge_chart(log, parents, actor, interval, len)[j] == level,
{
    let start = first_time(log);
    let elapsed = log[i].0 - start;
    let k = elapsed / interval;
    lemma_fundamental_div_mod(elapsed, interval);
    assert(k * interval <= elapsed < (k + 1) * interval && 0 <= k <= j) by (nonlinear_arith)
        requires
            interval > 0,
            elapsed == interval * k + elapsed % interval,
            0 <= elapsed % interval < interval,
            0 <= elapsed < (j + 1) * interval,
    ;
    assert(shown_in(log, start, parents, actor, interval, i, k));
    let at = law_chart_shows_latest_report(log, parents, actor, interval, len, j);
    let (a, b) = at->0;
    let shown = gauge_chart(log, parents, actor, interval, len)[j];
    assert((b + 1) * interval <= (j + 1) * interval) by (nonlinear_arith)
        requires
            b <= j,
            interval > 0,
    ;
    assert(shows(log, parents, actor, a, shown));
    if a < i {
        assert(log[a].0 <= log[i].0);
        assert(b <= k) by (nonlinear_arith)
            requires
                b * interval <= log[a].0 - start,
                log[a].0 - start <= elapsed,
                elapsed < (k + 1) * interval,
                interval > 0,
        ;
    }
    assert(a == i);
}

/// A chart has as many intervals as have begun by the end.
pub proof fn law_chart_covers_the_encounter(duration: int, interval: int)
    requires
        duration >= 0,
        interval > 0,
    ensures
        chart_len(duration, interval) >= 1,
        (chart_len(duration, interval) - 1) * interval <= duration < chart_len(duration, interval)
            * interval,
{
    let k = duration / interval;
    lemma_tick(duration, interval, k);
    lemma_fundamental_div_mod(duration, interval);
    assert(k >= 0) by (nonlinear_arith)
        requires
            duration >= 0,
            interval > 0,
            duration == interval * k + duration % interval,
            duration % interval < interval,
    ;
    assert(tick(duration, interval) == Some(k as nat));
}

/// The chart of a player is that of its own reports, over as many intervals as have begun by the
/// end of the encounter, which lasts a millisecond at least.
pub proof fn law_player_charts_last_as_long(parser: ParserModel, index: u32, interval: i64)
    requires
        interval > 0,
        i64::MIN <= parser.derived_state.end_time - parser.derived_state.start_time <= i64::MAX,
    ensures
        ({
            let chart = player_chart(parser, index, interval);
            let lasted = parser.derived_state.end_time - parser.derived_state.start_time;
            let duration = if lasted < 1 {
                1
            } else {
                lasted
            };
            &&& chart.len() >= 1
            &&& (chart.len() - 1) * interval <= duration < chart.len() * interval
            &&& chart == gauge_chart(
                parser.encounter.raw_event_log,
                parser.id_transformation_parents,
                index,
                interval as int,
                chart.len(),
            )
        }),
{
    let lasted = parser.derived_state.end_time - parser.derived_state.start_time;
    let duration = if lasted < 1 {
        1
    } else {
        lasted
    };
    law_chart_covers_the_encounter(duration, interval as int);
    law_chart_carries_levels(
        parser.encounter.raw_event_log,
        parser.id_transformation_parents,
        index,
        interval as int,
        chart_len(duration, interval as int),
        0,
    );
}

/// Charts are made of everyone in the party.
pub proof fn law_charts_are_of_the_party(parser: Parser, key: u32, index: u32)
    ensures
        parser@.derived_state.party.contains_key(key) ==> in_party(
            parser,
            parser@.derived_state.party[key].index,
        ),
        (forall|other: u32|
            parser@.derived_state.party.contains_key(other)
                ==> (#[trigger] parser@.derived_state.party[other]).index != index) ==> !in_party(
            parser,
            index,
        ),
{
}

} // verus!
