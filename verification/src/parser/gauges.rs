//! The gauges that players show once a log was parsed again.

use vstd::prelude::*;

use crate::constants::EnemyType;
use crate::derived::DerivedModel;
use crate::float32::Float32;
use crate::parser::attribution::{adjusted, owner_of, parents_in};
use crate::parser::replay::{reparsed, replay, replay_rules, replay_start, ReplayRules};
use crate::parser::tally::{hits_of, lemma_listed};
use crate::parser::uses::answers_for;
use crate::parser::ParserModel;
use crate::player_state::PlayerModel;
use crate::protocol::Message;

verus! {

/// Whether report `i` sets the gauge of `actor` to `level`.
pub open spec fn sets_gauge(
    log: Seq<(i64, Message)>,
    parents: Map<u32, u32>,
    actor: u32,
    i: int,
    level: Float32,
) -> bool {
    0 <= i < log.len() && match log[i].1 {
        Message::OnUpdateSBA(event) => answers_for(parents, actor, event.actor_index) && level
            == event.sba_value,
        Message::OnAttemptSBA(event) => answers_for(parents, actor, event.actor_index)
            && level.bits == 0x447A_0000,
        Message::OnPerformSBA(event) => answers_for(parents, actor, event.actor_index)
            && level.bits == 0,
        _ => false,
    }
}

/// Whether report `i` is the first hit on a listed enemy that counts for `actor`.
pub open spec fn enters_at(
    log: Seq<(i64, Message)>,
    rules: ReplayRules,
    actor: u32,
    i: int,
) -> bool {
    &&& 0 <= i < log.len()
    &&& log[i].1 matches Message::DamageEvent(hit) && hits_of(rules, actor)(hit)
    &&& forall|k: int|
        0 <= k < i ==> !((#[trigger] log[k]).1 matches Message::DamageEvent(hit) && hits_of(
            rules,
            actor,
        )(hit))
}

/// Whether no report from `from` on sets the gauge of `actor`.
pub open spec fn stays_set(
    log: Seq<(i64, Message)>,
    parents: Map<u32, u32>,
    actor: u32,
    from: int,
) -> bool {
    forall|k: int, level: Float32| from <= k ==> !#[trigger] sets_gauge(log, parents, actor, k, level)
}

proof fn lemma_replay_gauge(
    start: DerivedModel,
    rules: ReplayRules,
    log: Seq<(i64, Message)>,
    actor: u32,
) -> (at: (int, int))
    requires
        start.party == Map::<u32, PlayerModel>::empty(),
    ensures
        ({
            let party = replay(start, rules, log).derived.party;
            &&& party.contains_key(actor) ==> {
                &&& enters_at(log, rules, actor, at.0)
                &&& at.0 <= at.1
                &&& !rules.gauges ==> party[actor].sba.bits == 0
                &&& rules.gauges && at.0 == at.1 ==> party[actor].sba.bits == 0
                &&& rules.gauges && at.0 < at.1 ==> sets_gauge(
                    log,
                    rules.parents,
                    actor,
                    at.1,
                    party[actor].sba,
                )
                &&& stays_set(log, rules.parents, actor, at.1 + 1)
            }
            &&& !party.contains_key(actor) ==> forall|k: int|
                0 <= k < log.len() ==> !((#[trigger] log[k]).1 matches Message::DamageEvent(hit)
                    && hits_of(rules, actor)(hit))
        }),
    decreases log.len(),
{
    if log.len() == 0 {
        (0, 0)
    } else {
        let before = log.drop_last();
        let last = log.len() - 1;
        let (first, at) = lemma_replay_gauge(start, rules, before, actor);
        let state = replay(start, rules, before).derived;
        let after = replay(start, rules, log).derived;
        assert forall|k: int| 0 <= k < last implies before[k] == #[trigger] log[k] by {}
        assert forall|k: int, level: Float32| k != last implies #[trigger] sets_gauge(
            log,
            rules.parents,
            actor,
            k,
            level,
        ) == sets_gauge(before, rules.parents, actor, k, level) by {}
        if let Message::DamageEvent(event) = log.last().1 {
            lemma_listed(rules.targets, event);
            lemma_listed(rules.targets, adjusted(event, rules.players, rules.parents));
        }
        match log.last().1 {
            Message::OnUpdateSBA(event) => {
                assert(owner_of(rules.parents, event.actor_index) == actor ==> sets_gauge(
                    log,
                    rules.parents,
                    actor,
                    last,
                    event.sba_value,
                ));
            },
            Message::OnAttemptSBA(event) => {
                assert(owner_of(rules.parents, event.actor_index) == actor ==> sets_gauge(
                    log,
                    rules.parents,
                    actor,
                    last,
                    Float32 { bits: 0x447A_0000 },
                ));
            },
            Message::OnPerformSBA(event) => {
                assert(owner_of(rules.parents, event.actor_index) == actor ==> sets_gauge(
                    log,
                    rules.parents,
                    actor,
                    last,
                    Float32 { bits: 0 },
                ));
            },
            _ => {},
        }
        if state.party.contains_key(actor) {
            assert(enters_at(log, rules, actor, first));
            if exists|level: Float32| sets_gauge(log, rules.parents, actor, last, level) {
                if rules.gauges {
                    assert(sets_gauge(log, rules.parents, actor, last, after.party[actor].sba));
                }
                assert(stays_set(log, rules.parents, actor, last + 1));
                (first, last)
            } else {
                assert(after.party[actor].sba == state.party[actor].sba);
                assert forall|k: int, level: Float32| at + 1 <= k implies !#[trigger] sets_gauge(
                    log,
                    rules.parents,
                    actor,
                    k,
                    level,
                ) by {
                    if k < last {
                        assert(!sets_gauge(before, rules.parents, actor, k, level));
                    }
                }
                (first, at)
            }
        } else {
            assert forall|k: int, level: Float32| last + 1 <= k implies !#[trigger] sets_gauge(
                log,
                rules.parents,
                actor,
                k,
                level,
            ) by {}
            (last, last)
        }
    }
}

/// After parsing again, the gauge that a player shows is the one that the last report of its own
/// gauge since its first hit sets: as it tells, full where an art was requested, and empty where
/// one was performed. Without such a report, or where gauges are left out, it is zero.
///
/// `at` gives the positions of the first hit and of that report.
pub proof fn law_reparse_sets_gauges(
    parser: ParserModel,
    gauges: bool,
    targets: Seq<EnemyType>,
    actor: u32,
) -> (at: (int, int))
    requires
        reparsed(parser, gauges, targets).derived_state.party.contains_key(actor),
    ensures
        ({
            let log = parser.encounter.raw_event_log;
            let parents = parents_in(log);
            let shown = reparsed(parser, gauges, targets).derived_state.party[actor].sba;
            &&& enters_at(log, replay_rules(parser, gauges, targets), actor, at.0)
            &&& at.0 <= at.1
            &&& !gauges ==> shown.bits == 0
            &&& gauges && at.0 == at.1 ==> shown.bits == 0
            &&& gauges && at.0 < at.1 ==> sets_gauge(log, parents, actor, at.1, shown)
            &&& stays_set(log, parents, actor, at.1 + 1)
        }),
{
    let log = parser.encounter.raw_event_log;
    lemma_replay_gauge(
        replay_start(log, parser.status),
        replay_rules(parser, gauges, targets),
        log,
        actor,
    )
}

} // verus!
