//! Which hits of a log count as capped.

use vstd::prelude::*;

use crate::constants::EnemyType;
use crate::encounter::PlayerDataModel;
use crate::parser::attribution::{adjusted, parents_in};
use crate::parser::credit::{
    counts_for, is_trusted, law_hits_count_as_reported, law_hits_count_once,
};
use crate::parser::replay::{cap_samples, log_ok, reparsed, replay_rules};
use crate::parser::tally::{capped_hits_of, hits_where, law_reparse_tallies, on_target};
use crate::parser::uses::rising;
use crate::parser::ParserModel;
use crate::peaks::{in_ratio, law_recurring_ratios_are_capped, reaches, reaching};
use crate::protocol::{DamageEvent, Message};

verus! {

/// Whether a hit tells a cap, and counts for an actor whose caps can be trusted.
pub open spec fn has_trusted_cap(
    hit: DamageEvent,
    players: Seq<Option<PlayerDataModel>>,
    parents: Map<u32, u32>,
) -> bool {
    hit.damage_cap is Some && exists|actor: u32| #[trigger]
        counts_for(hit, players, parents, actor) && is_trusted(players, actor)
}

/// Whether report `i` is a hit with a cap that can be trusted.
pub open spec fn is_sample(
    log: Seq<(i64, Message)>,
    players: Seq<Option<PlayerDataModel>>,
    parents: Map<u32, u32>,
    i: int,
) -> bool {
    0 <= i < log.len() && (log[i].1 matches Message::DamageEvent(hit) && has_trusted_cap(
        hit,
        players,
        parents,
    ))
}

/// Whether a sample is the damage and the cap of report `i`.
pub open spec fn samples_hit(log: Seq<(i64, Message)>, i: int, sample: (i32, i32)) -> bool {
    log[i].1 matches Message::DamageEvent(hit) && sample.0 == hit.damage && hit.damage_cap == Some(
        sample.1,
    )
}

proof fn lemma_trusted_cap(
    hit: DamageEvent,
    players: Seq<Option<PlayerDataModel>>,
    parents: Map<u32, u32>,
)
    ensures
        has_trusted_cap(hit, players, parents) <==> adjusted(hit, players, parents).damage_cap is Some,
        adjusted(hit, players, parents).damage_cap is Some ==> adjusted(
            hit,
            players,
            parents,
        ).damage_cap == hit.damage_cap,
{
    law_hits_count_as_reported(hit, players, parents);
    let actor = adjusted(hit, players, parents).source.parent_index;
    if has_trusted_cap(hit, players, parents) {
        let other = choose|other: u32| #[trigger]
            counts_for(hit, players, parents, other) && is_trusted(players, other);
        law_hits_count_once(hit, players, parents, actor, other);
    }
}

/// The multipliers of critical hits are learned from the hits of the log whose caps can be
/// trusted, one sample for each, in the order of the log: its damage first, and then the cap of
/// that same hit. `at` gives the positions of the hits.
pub proof fn law_samples_are_trusted_hits(
    log: Seq<(i64, Message)>,
    players: Seq<Option<PlayerDataModel>>,
    parents: Map<u32, u32>,
) -> (at: Seq<int>)
    ensures
        rising(at),
        at.len() == cap_samples(log, players, parents).len(),
        forall|k: int|
            0 <= k < at.len() ==> is_sample(log, players, parents, #[trigger] at[k]) && samples_hit(
                log,
                at[k],
                cap_samples(log, players, parents)[k],
            ),
        forall|i: int| #[trigger] is_sample(log, players, parents, i) ==> at.contains(i),
    decreases log.len(),
{
    if log.len() == 0 {
        Seq::empty()
    } else {
        let before = log.drop_last();
        let last = log.len() - 1;
        let earlier = law_samples_are_trusted_hits(before, players, parents);
        let samples = cap_samples(log, players, parents);
        let known = cap_samples(before, players, parents);
        if let Message::DamageEvent(hit) = log.last().1 {
            lemma_trusted_cap(hit, players, parents);
            law_hits_count_as_reported(hit, players, parents);
        }
        let at = if is_sample(log, players, parents, last) {
            earlier.push(last)
        } else {
            earlier
        };
        assert forall|k: int| 0 <= k < at.len() implies is_sample(
            log,
            players,
            parents,
            #[trigger] at[k],
        ) && samples_hit(log, at[k], samples[k]) by {
            if k < earlier.len() {
                assert(is_sample(before, players, parents, earlier[k]));
                assert(samples[k] == known[k]);
            }
        }
        assert forall|i: int| #[trigger] is_sample(log, players, parents, i) implies at.contains(
            i,
        ) by {
            if i < last {
                assert(is_sample(before, players, parents, i));
                let k = choose|k: int| 0 <= k < earlier.len() && earlier[k] == i;
                assert(at[k] == i);
            } else {
                assert(at[at.len() - 1] == last);
            }
        }
        assert forall|a: int, b: int| 0 <= a < b < at.len() implies #[trigger] at[a] < #[trigger] at[b] by {
            if b < earlier.len() {
                assert(earlier[a] < earlier[b]);
            } else {
                assert(is_sample(before, players, parents, earlier[a]));
            }
        }
        at
    }
}

/// The hits with a trusted cap that reach it.
pub open spec fn reaching_hits(
    players: Seq<Option<PlayerDataModel>>,
    parents: Map<u32, u32>,
) -> spec_fn(DamageEvent) -> bool {
    |hit: DamageEvent|
        has_trusted_cap(hit, players, parents) && reaches(hit.damage, hit.damage_cap->0)
}

/// The hits with a trusted cap that reach it, with damage in the same ratio to their cap as
/// `damage` to `cap`.
pub open spec fn hits_in_ratio(
    players: Seq<Option<PlayerDataModel>>,
    parents: Map<u32, u32>,
    damage: i32,
    cap: i32,
) -> spec_fn(DamageEvent) -> bool {
    |hit: DamageEvent|
        reaching_hits(players, parents)(hit) && hit.damage * cap == damage * hit.damage_cap->0
}

proof fn lemma_log_samples(
    log: Seq<(i64, Message)>,
    players: Seq<Option<PlayerDataModel>>,
    parents: Map<u32, u32>,
    damage: i32,
    cap: i32,
)
    ensures
        reaching(cap_samples(log, players, parents)) == hits_where(
            log,
            reaching_hits(players, parents),
        ).len() <= log.len(),
        in_ratio(cap_samples(log, players, parents), damage, cap) == hits_where(
            log,
            hits_in_ratio(players, parents, damage, cap),
        ).len(),
    decreases log.len(),
{
    if log.len() > 0 {
        let before = log.drop_last();
        lemma_log_samples(before, players, parents, damage, cap);
        if let Message::DamageEvent(hit) = log.last().1 {
            lemma_trusted_cap(hit, players, parents);
            law_hits_count_as_reported(hit, players, parents);
            let known = cap_samples(before, players, parents);
            if has_trusted_cap(hit, players, parents) {
                assert(cap_samples(log, players, parents) == known.push(
                    (hit.damage, hit.damage_cap->0),
                ));
                assert(known.push((hit.damage, hit.damage_cap->0)).drop_last() == known);
            }
        }
    }
}

/// A ratio of damage to cap that keeps coming back in a log is found when it is parsed again.
/// Of the hits with a trusted cap that reach it, let at least three, and at least one in a
/// hundred, have damage in some ratio to their caps. Then every such hit of that ratio counts
/// among the capped hits of its actor.
pub proof fn law_recurring_ratios_count_as_capped(
    parser: ParserModel,
    gauges: bool,
    targets: Seq<EnemyType>,
    hit: DamageEvent,
    actor: u32,
)
    requires
        log_ok(parser.encounter.raw_event_log),
        on_target(targets)(hit),
        counts_for(hit, parser.encounter.player_data, parents_in(parser.encounter.raw_event_log), actor),
        is_trusted(parser.encounter.player_data, actor),
        hit.damage_cap is Some,
        reaches(hit.damage, hit.damage_cap->0),
        hits_where(
            parser.encounter.raw_event_log,
            hits_in_ratio(
                parser.encounter.player_data,
                parents_in(parser.encounter.raw_event_log),
                hit.damage,
                hit.damage_cap->0,
            ),
        ).len() >= 3,
        hits_where(
            parser.encounter.raw_event_log,
            hits_in_ratio(
                parser.encounter.player_data,
                parents_in(parser.encounter.raw_event_log),
                hit.damage,
                hit.damage_cap->0,
            ),
        ).len() >= hits_where(
            parser.encounter.raw_event_log,
            reaching_hits(
                parser.encounter.player_data,
                parents_in(parser.encounter.raw_event_log),
            ),
        ).len() / 100,
    ensures
        capped_hits_of(replay_rules(parser, gauges, targets), actor)(hit),
        reparsed(parser, gauges, targets).derived_state.party.contains_key(actor) ==> reparsed(
            parser,
            gauges,
            targets,
        ).derived_state.party[actor].capped_hits == hits_where(
            parser.encounter.raw_event_log,
            capped_hits_of(replay_rules(parser, gauges, targets), actor),
        ).len(),
{
    let log = parser.encounter.raw_event_log;
    let players = parser.encounter.player_data;
    let parents = parents_in(log);
    let cap = hit.damage_cap->0;
    lemma_log_samples(log, players, parents, hit.damage, cap);
    law_recurring_ratios_are_capped(cap_samples(log, players, parents), hit.damage, cap);
    law_hits_count_as_reported(hit, players, parents);
    law_hits_count_once(
        hit,
        players,
        parents,
        actor,
        adjusted(hit, players, parents).source.parent_index,
    );
    law_reparse_tallies(parser, gauges, targets, actor, 0);
}

} // verus!
