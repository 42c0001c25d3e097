//! Skybound art gauges over time, and when the arts were used.

use std::collections::HashMap;
use vstd::prelude::*;

use crate::derived::{comparable, lasting};
use crate::float32::{Float32, NINE_HUNDRED_BITS, ONE_HUNDRED_BITS, ONE_THOUSAND_BITS};
use crate::keys::keys_of;
use crate::parser::attribution::{owner_of, resolve_owner};
use crate::parser::replay::{entry_ok, log_ok};
use crate::parser::{first_time, Parser, ParserModel};
use crate::protocol::{
    Message, OnAttemptSBAEvent, OnContinueSBAChainEvent, OnPerformSBAEvent,
};

verus! {

/// A gauge that falls from at least this far was used up.
pub open spec fn inferred_previous_min() -> Float32 {
    Float32 { bits: NINE_HUNDRED_BITS }
}

/// A gauge that falls to at most this much was used up.
pub open spec fn inferred_current_max() -> Float32 {
    Float32 { bits: ONE_HUNDRED_BITS }
}

/// The actor whose gauge a report tells of, and the level it tells.
pub open spec fn gauge_in(message: Message) -> Option<(u32, Float32)> {
    match message {
        Message::OnUpdateSBA(event) => Some((event.actor_index, event.sba_value)),
        Message::OnAttemptSBA(event) => Some(
            (event.actor_index, Float32 { bits: ONE_THOUSAND_BITS }),
        ),
        Message::OnPerformSBA(event) => Some((event.actor_index, Float32 { bits: 0 })),
        Message::OnContinueSBAChain(event) => Some((event.actor_index, Float32 { bits: 0 })),
        _ => None,
    }
}

/// The interval that a point in time falls into, counted from the start.
pub open spec fn tick(elapsed: int, interval: int) -> Option<nat> {
    if elapsed < 0 {
        None
    } else if interval > 0 {
        Some((elapsed / interval) as nat)
    } else if elapsed < -interval {
        Some(0)
    } else {
        None
    }
}

/// How many intervals a chart has: those that have begun by the end.
pub open spec fn chart_len(duration: int, interval: int) -> nat {
    match tick(duration, interval) {
        Some(last) => last + 1,
        None => 0,
    }
}

/// The last level of the gauge of `actor` in each of `len` intervals, where any was
/// reported.
pub open spec fn sampled(
    log: Seq<(i64, Message)>,
    start: i64,
    parents: Map<u32, u32>,
    actor: u32,
    interval: int,
    len: nat,
) -> Seq<Option<Float32>>
    decreases log.len(),
{
    if log.len() == 0 {
        Seq::new(len, |j: int| None)
    } else {
        let before = sampled(log.drop_last(), start, parents, actor, interval, len);
        match gauge_in(log.last().1) {
            Some((index, level)) => match tick(log.last().0 - start, interval) {
                Some(j) => if owner_of(parents, index) == actor && j < len {
                    before.update(j as int, Some(level))
                } else {
                    before
                },
                None => before,
            },
            None => before,
        }
    }
}

/// The levels with the gaps filled: each gap has the level before it, or zero.
pub open spec fn carried(samples: Seq<Option<Float32>>) -> Seq<Float32>
    decreases samples.len(),
{
    if samples.len() == 0 {
        Seq::empty()
    } else {
        let before = carried(samples.drop_last());
        match samples.last() {
            Some(level) => before.push(level),
            None => before.push(
                if before.len() > 0 {
                    before.last()
                } else {
                    Float32 { bits: 0 }
                },
            ),
        }
    }
}

/// The level of the gauge of `actor` at the end of each interval.
pub open spec fn gauge_chart(
    log: Seq<(i64, Message)>,
    parents: Map<u32, u32>,
    actor: u32,
    interval: int,
    len: nat,
) -> Seq<Float32> {
    carried(sampled(log, first_time(log), parents, actor, interval, len))
}

/// The use of a skybound art that a report tells of, with the actor it stands for.
pub open spec fn explicit_use(message: Message, parents: Map<u32, u32>) -> Option<Message> {
    match message {
        Message::OnAttemptSBA(event) => Some(
            Message::OnAttemptSBA(
                OnAttemptSBAEvent { actor_index: owner_of(parents, event.actor_index) },
            ),
        ),
        Message::OnPerformSBA(event) => Some(
            Message::OnPerformSBA(
                OnPerformSBAEvent { actor_index: owner_of(parents, event.actor_index) },
            ),
        ),
        Message::OnContinueSBAChain(event) => Some(
            Message::OnContinueSBAChain(
                OnContinueSBAChainEvent { actor_index: owner_of(parents, event.actor_index) },
            ),
        ),
        _ => None,
    }
}

/// The uses of skybound arts that a log tells of.
pub open spec fn explicit_uses(log: Seq<(i64, Message)>, parents: Map<u32, u32>) -> Seq<(i64, Message)>
    decreases log.len(),
{
    if log.len() == 0 {
        Seq::empty()
    } else {
        let before = explicit_uses(log.drop_last(), parents);
        match explicit_use(log.last().1, parents) {
            Some(message) => before.push((log.last().0, message)),
            None => before,
        }
    }
}

/// The last level that a log reports of the gauge of `actor`.
pub open spec fn last_level(log: Seq<(i64, Message)>, parents: Map<u32, u32>, actor: u32) -> Option<
    Float32,
>
    decreases log.len(),
{
    if log.len() == 0 {
        None
    } else {
        let before = last_level(log.drop_last(), parents, actor);
        match log.last().1 {
            Message::OnUpdateSBA(event) => if owner_of(parents, event.actor_index) == actor {
                Some(event.sba_value)
            } else {
                before
            },
            _ => before,
        }
    }
}

/// Whether a gauge that fell from `previous` to `current` was used up.
pub open spec fn is_use(previous: Float32, current: Float32) -> bool {
    inferred_previous_min().at_most(previous) && current.at_most(inferred_current_max())
        && current.below(previous)
}

/// The uses of skybound arts that the gauges in a log give away.
pub open spec fn inferred_uses(log: Seq<(i64, Message)>, parents: Map<u32, u32>) -> Seq<(i64, Message)>
    decreases log.len(),
{
    if log.len() == 0 {
        Seq::empty()
    } else {
        let before = inferred_uses(log.drop_last(), parents);
        match log.last().1 {
            Message::OnUpdateSBA(event) => {
                let actor_index = owner_of(parents, event.actor_index);
                match last_level(log.drop_last(), parents, actor_index) {
                    Some(previous) => if is_use(previous, event.sba_value) {
                        before.push(
                            (
                                log.last().0,
                                Message::OnPerformSBA(OnPerformSBAEvent { actor_index }),
                            ),
                        )
                    } else {
                        before
                    },
                    None => before,
                }
            },
            _ => before,
        }
    }
}

/// The uses of skybound arts: those that were reported, or else, where none was, those
/// that the gauges give away.
pub open spec fn sba_uses(log: Seq<(i64, Message)>, parents: Map<u32, u32>) -> Seq<(i64, Message)> {
    let explicit = explicit_uses(log, parents);
    if explicit.len() > 0 {
        explicit
    } else {
        inferred_uses(log, parents)
    }
}

/// Whether some player of the party has actor index `index`.
pub open spec fn in_party(parser: Parser, index: u32) -> bool {
    exists|key: u32| #[trigger]
        parser@.derived_state.party.contains_key(key) && parser@.derived_state.party[key].index
            == index
}

/// The chart of player `index`.
pub open spec fn player_chart(parser: ParserModel, index: u32, interval: i64) -> Seq<Float32> {
    gauge_chart(
        parser.encounter.raw_event_log,
        parser.id_transformation_parents,
        index,
        interval as int,
        chart_len(
            lasting(parser.derived_state.start_time, parser.derived_state.end_time) as int,
            interval as int,
        ),
    )
}

/// The interval that a point in time falls into, counted from the start.
fn tick_of(elapsed: i64, interval: i64) -> (at: Option<u64>)
    requires
        interval != 0,
    ensures
        match at {
            Some(j) => tick(elapsed as int, interval as int) == Some(j as nat),
            None => tick(elapsed as int, interval as int) is None,
        },
{
    if elapsed < 0 {
        None
    } else if interval > 0 {
        let at: u64 = elapsed as u64 / interval as u64;
        Some(at)
    } else if (elapsed as i128) < 0 - interval as i128 {
        Some(0)
    } else {
        None
    }
}

/// The actor whose gauge a report tells of, and the level it tells.
fn gauge_of(message: &Message) -> (gauge: Option<(u32, Float32)>)
    ensures
        gauge == gauge_in(*message),
{
    match message {
        Message::OnUpdateSBA(event) => Some((event.actor_index, event.sba_value)),
        Message::OnAttemptSBA(event) => Some(
            (event.actor_index, Float32::from_bits(ONE_THOUSAND_BITS)),
        ),
        Message::OnPerformSBA(event) => Some((event.actor_index, Float32::zero())),
        Message::OnContinueSBAChain(event) => Some((event.actor_index, Float32::zero())),
        _ => None,
    }
}

impl Parser {
    /// The actor that `actor_index` stands for.
    pub fn resolve_actor_parent(&self, actor_index: u32) -> (owner: u32)
        ensures
            owner == owner_of(self@.id_transformation_parents, actor_index),
    {
        resolve_owner(&self.id_transformation_parents, actor_index)
    }

    /// The level of the gauge of `actor` at the end of each of `len` intervals.
    fn sba_chart_of(&self, actor: u32, interval: i64, len: usize) -> (chart: Vec<Float32>)
        requires
            log_ok(self@.encounter.raw_event_log),
            interval != 0,
        ensures
            chart@ == gauge_chart(
                self@.encounter.raw_event_log,
                self@.id_transformation_parents,
                actor,
                interval as int,
                len as nat,
            ),
    {
        let log = self.encounter.event_log();
        let start: i64 = self.start_time();
        let ghost parents = self@.id_transformation_parents;
        let mut samples: Vec<Option<Float32>> = Vec::new();
        let mut k: usize = 0;
        while k < len
            invariant
                k <= len,
                samples@ == Seq::new(k as nat, |j: int| None::<Float32>),
            decreases len - k,
        {
            samples.push(None);
            k = k + 1;
            assert(samples@ == Seq::new(k as nat, |j: int| None::<Float32>));
        }
        let mut i: usize = 0;
        assert(log@.take(0) == Seq::<(i64, Message)>::empty());
        while i < log.len()
            invariant
                i <= log.len(),
                log_ok(log@),
                start == first_time(log@),
                interval != 0,
                parents == self@.id_transformation_parents,
                samples@.len() == len,
                samples@ == sampled(
                    log@.take(i as int),
                    start,
                    parents,
                    actor,
                    interval as int,
                    len as nat,
                ),
            decreases log.len() - i,
        {
            assert(log@.take(i + 1).drop_last() == log@.take(i as int));
            assert(entry_ok(log@[i as int], first_time(log@)));
            if let Some((index, level)) = gauge_of(&log[i].1) {
                if let Some(j) = tick_of(log[i].0 - start, interval) {
                    if self.resolve_actor_parent(index) == actor && j < len as u64 {
                        samples.set(j as usize, Some(level));
                    }
                }
            }
            i = i + 1;
        }
        assert(log@.take(i as int) == log@);
        let mut chart: Vec<Float32> = Vec::new();
        let mut level: Float32 = Float32::zero();
        let mut j: usize = 0;
        assert(samples@.take(0) == Seq::<Option<Float32>>::empty());
        while j < samples.len()
            invariant
                j <= samples.len(),
                chart@ == carried(samples@.take(j as int)),
                chart@.len() == j,
                level == (if chart@.len() > 0 {
                    chart@.last()
                } else {
                    Float32 { bits: 0 }
                }),
            decreases samples.len() - j,
        {
            assert(samples@.take(j + 1).drop_last() == samples@.take(j as int));
            if let Some(sample) = samples[j] {
                level = sample;
            }
            chart.push(level);
            j = j + 1;
        }
        assert(samples@.take(j as int) == samples@);
        chart
    }

    /// The level of the gauge of each player at the end of each interval of `interval`
    /// milliseconds.
    pub fn generate_sba_chart(&self, interval: i64) -> (charts: HashMap<u32, Vec<Float32>>)
        requires
            log_ok(self@.encounter.raw_event_log),
            comparable(self.derived_state.start_time, self.derived_state.end_time),
            interval != 0,
            1 <= chart_len(
                lasting(self.derived_state.start_time, self.derived_state.end_time) as int,
                interval as int,
            ) <= usize::MAX,
        ensures
            forall|index: u32| #[trigger]
                charts@.contains_key(index) <==> in_party(*self, index),
            forall|index: u32| #[trigger]
                charts@.contains_key(index) ==> charts@[index]@ == player_chart(
                    self@,
                    index,
                    interval,
                ),
    {
        broadcast use vstd::std_specs::hash::group_hash_axioms;

        let duration: i64 = self.derived_state.duration();
        let mut charts: HashMap<u32, Vec<Float32>> = HashMap::new();
        let len: usize = match tick_of(duration, interval) {
            Some(last) => last as usize + 1,
            None => {
                return charts;
            },
        };
        let ghost expected = chart_len(duration as int, interval as int);
        let keys: Vec<u32> = keys_of(&self.derived_state.party);
        let mut i: usize = 0;
        while i < keys.len()
            invariant
                i <= keys.len(),
                log_ok(self@.encounter.raw_event_log),
                interval != 0,
                expected == len,
                forall|key: u32|
                    keys@.contains(key) <==> #[trigger] self.derived_state.party@.contains_key(key),
                forall|index: u32| #[trigger]
                    charts@.contains_key(index) <==> exists|k: int|
                        0 <= k < i && self.derived_state.party@[#[trigger] keys@[k]].index == index,
                forall|index: u32| #[trigger]
                    charts@.contains_key(index) ==> charts@[index]@ == gauge_chart(
                        self@.encounter.raw_event_log,
                        self@.id_transformation_parents,
                        index,
                        interval as int,
                        expected,
                    ),
            decreases keys.len() - i,
        {
            let key: u32 = keys[i];
            assert(keys@.contains(key));
            let ghost earlier = charts@;
            if let Some(player) = self.derived_state.party.get(&key) {
                let index: u32 = player.index;
                charts.insert(index, self.sba_chart_of(index, interval, len));
                assert(self.derived_state.party@[keys@[i as int]].index == index);
            }
            assert forall|index: u32| #[trigger] charts@.contains_key(index) <==> exists|k: int|
                0 <= k < i + 1 && self.derived_state.party@[#[trigger] keys@[k]].index == index by {
                if earlier.contains_key(index) {
                    let k = choose|k: int|
                        0 <= k < i && self.derived_state.party@[#[trigger] keys@[k]].index == index;
                    assert(self.derived_state.party@[keys@[k]].index == index);
                }
            }
            i = i + 1;
        }
        assert forall|index: u32| #[trigger] charts@.contains_key(index) <==> in_party(
            *self,
            index,
        ) by {
            if charts@.contains_key(index) {
                let k = choose|k: int|
                    0 <= k < keys.len() && self.derived_state.party@[#[trigger] keys@[k]].index
                        == index;
                assert(keys@.contains(keys@[k]));
                assert(self@.derived_state.party.contains_key(keys@[k]));
            }
            if in_party(*self, index) {
                let key = choose|key: u32| #[trigger]
                    self@.derived_state.party.contains_key(key)
                        && self@.derived_state.party[key].index == index;
                assert(self.derived_state.party@.contains_key(key));
                let k = choose|k: int| 0 <= k < keys.len() && keys@[k] == key;
                assert(self.derived_state.party@[keys@[k]].index == index);
            }
        }
        charts
    }

    /// The use of a skybound art that a report tells of, with the actor it stands for.
    fn explicit_use_of(&self, message: &Message) -> (used: Option<Message>)
        ensures
            used == explicit_use(*message, self@.id_transformation_parents),
    {
        match message {
            Message::OnAttemptSBA(event) => Some(
                Message::OnAttemptSBA(
                    OnAttemptSBAEvent { actor_index: self.resolve_actor_parent(event.actor_index) },
                ),
            ),
            Message::OnPerformSBA(event) => Some(
                Message::OnPerformSBA(
                    OnPerformSBAEvent { actor_index: self.resolve_actor_parent(event.actor_index) },
                ),
            ),
            Message::OnContinueSBAChain(event) => Some(
                Message::OnContinueSBAChain(
                    OnContinueSBAChainEvent {
                        actor_index: self.resolve_actor_parent(event.actor_index),
                    },
                ),
            ),
            _ => None,
        }
    }

    /// The uses of skybound arts, oldest first.
    pub fn generate_sba_transition_events(&self) -> (events: Vec<(i64, Message)>)
        ensures
            events@ == sba_uses(self@.encounter.raw_event_log, self@.id_transformation_parents),
    {
        broadcast use vstd::std_specs::hash::group_hash_axioms;

        let log = self.encounter.event_log();
        let ghost parents = self@.id_transformation_parents;
        let mut explicit_events: Vec<(i64, Message)> = Vec::new();
        let mut i: usize = 0;
        assert(log@.take(0) == Seq::<(i64, Message)>::empty());
        while i < log.len()
            invariant
                i <= log.len(),
                parents == self@.id_transformation_parents,
                explicit_events@ == explicit_uses(log@.take(i as int), parents),
            decreases log.len() - i,
        {
            assert(log@.take(i + 1).drop_last() == log@.take(i as int));
            if let Some(event) = self.explicit_use_of(&log[i].1) {
                explicit_events.push((log[i].0, event));
            }
            i = i + 1;
        }
        assert(log@.take(i as int) == log@);
        if explicit_events.len() > 0 {
            return explicit_events;
        }
        let mut previous_values: HashMap<u32, Float32> = HashMap::new();
        let mut inferred_events: Vec<(i64, Message)> = Vec::new();
        let previous_min: Float32 = Float32::from_bits(NINE_HUNDRED_BITS);
        let current_max: Float32 = Float32::from_bits(ONE_HUNDRED_BITS);
        let mut j: usize = 0;
        while j < log.len()
            invariant
                j <= log.len(),
                parents == self@.id_transformation_parents,
                previous_min == inferred_previous_min(),
                current_max == inferred_current_max(),
                inferred_events@ == inferred_uses(log@.take(j as int), parents),
                forall|actor: u32|
                    match last_level(log@.take(j as int), parents, actor) {
                        Some(level) => #[trigger] previous_values@.contains_key(actor)
                            && previous_values@[actor] == level,
                        None => !previous_values@.contains_key(actor),
                    },
            decreases log.len() - j,
        {
            assert(log@.take(j + 1).drop_last() == log@.take(j as int));
            if let Message::OnUpdateSBA(event) = &log[j].1 {
                let actor_index: u32 = self.resolve_actor_parent(event.actor_index);
                assert(previous_values@.contains_key(actor_index) <==> last_level(
                    log@.take(j as int),
                    parents,
                    actor_index,
                ) is Some);
                let previous = previous_values.insert(actor_index, event.sba_value);
                if let Some(previous_value) = previous {
                    if previous_min.le(previous_value) && event.sba_value.le(current_max)
                        && event.sba_value.lt(previous_value) {
                        inferred_events.push(
                            (log[j].0, Message::OnPerformSBA(OnPerformSBAEvent { actor_index })),
                        );
                    }
                }
            }
            j = j + 1;
        }
        assert(log@.take(j as int) == log@);
        inferred_events
    }
}

} // verus!
