//! Working out the state of an encounter from its log.

use std::collections::HashMap;
use vstd::prelude::*;

use crate::cap_detection;
use crate::cap_detection::{lemma_capped_among, learned, CritMultiplier};
use crate::constants::EnemyType;
use crate::derived::{
    after_damage, comparable, empty_derived, lemma_derived_bounded, lemma_derived_bounded_more,
    lemma_setters_bounded, with_deaths, with_sba, DerivedEncounterState, DerivedModel, ParserStatus,
};
use crate::encounter::{
    empty_encounter, hits_as_messages, Encounter, EncounterModel, PlayerDataModel,
};
use crate::float32::{Float32, ONE_THOUSAND_BITS};
use crate::parser::attribution::{
    adjust, adjusted, apply_death_count, collect_id_transformation_parents, deaths_after,
    find_player, owner_of, parents_in, resolve_owner,
};
use crate::parser::{empty_parser, first_time, start_of, Parser, ParserModel};
use crate::player_state::{hit_among, AdjustedDamageInstance, LOG_LIMIT};
use crate::protocol::{DamageEvent, Message};

verus! {

/// A log that can be added up: not too long, no hit that heals, and no time too far from
/// the start to tell how far.
pub open spec fn log_ok(log: Seq<(i64, Message)>) -> bool {
    &&& log.len() <= LOG_LIMIT
    &&& forall|i: int| 0 <= i < log.len() ==> #[trigger] entry_ok(log[i], first_time(log))
}

/// A report that can be added up.
pub open spec fn entry_ok(entry: (i64, Message), start: i64) -> bool {
    &&& comparable(start, entry.0)
    &&& (entry.1 matches Message::DamageEvent(event) ==> event.damage >= 0)
}

/// A parser whose running totals add up.
pub open spec fn sums_ok(parser: ParserModel) -> bool {
    &&& log_ok(parser.encounter.raw_event_log)
    &&& parser.derived_state.bounded(parser.encounter.raw_event_log.len())
}

/// Whether a log can be added up, for those who got it from elsewhere.
pub fn can_replay(log: &[(i64, Message)]) -> (answer: bool)
    ensures
        answer == log_ok(log@),
{
    if log.len() as u64 > LOG_LIMIT as u64 {
        return false;
    }
    let start: i64 = start_of(log);
    let mut i: usize = 0;
    while i < log.len()
        invariant
            i <= log.len() <= LOG_LIMIT,
            start == first_time(log@),
            forall|k: int| 0 <= k < i ==> #[trigger] entry_ok(log@[k], first_time(log@)),
        decreases log.len() - i,
    {
        let apart: i128 = log[i].0 as i128 - start as i128;
        let heals: bool = match &log[i].1 {
            Message::DamageEvent(event) => event.damage < 0,
            _ => false,
        };
        if apart < i64::MIN as i128 || apart > i64::MAX as i128 || heals {
            assert(!entry_ok(log@[i as int], first_time(log@)));
            return false;
        }
        i = i + 1;
    }
    true
}

/// The damage and cap of every hit whose cap can be trusted.
pub open spec fn cap_samples(
    log: Seq<(i64, Message)>,
    players: Seq<Option<PlayerDataModel>>,
    parents: Map<u32, u32>,
) -> Seq<(i32, i32)>
    decreases log.len(),
{
    if log.len() == 0 {
        Seq::empty()
    } else {
        let before = cap_samples(log.drop_last(), players, parents);
        match log.last().1 {
            Message::DamageEvent(event) => {
                let hit = adjusted(event, players, parents);
                match hit.damage_cap {
                    Some(cap) => before.push((hit.damage, cap)),
                    None => before,
                }
            },
            _ => before,
        }
    }
}

/// What a replay goes by.
pub struct ReplayRules {
    /// The party.
    pub players: Seq<Option<PlayerDataModel>>,
    /// The owners of transformations.
    pub parents: Map<u32, u32>,
    /// The samples that the multipliers of critical hits are learned from.
    pub samples: Seq<(i32, i32)>,
    /// Whether skybound art gauges are followed.
    pub gauges: bool,
    /// The enemies whose hits count; all of them if there is none.
    pub targets: Seq<EnemyType>,
}

/// What a replay has worked out so far.
#[verifier::ext_equal]
pub struct Replayed {
    pub derived: DerivedModel,
    pub deaths: Map<u32, u32>,
}

/// Whether hits on an enemy of the given type count.
pub open spec fn is_listed(targets: Seq<EnemyType>, enemy_type: u32) -> bool {
    targets.len() == 0 || targets.contains(EnemyType { hash: enemy_type })
}

/// Whether a hit counts.
pub open spec fn counts(targets: Seq<EnemyType>, hit: DamageEvent) -> bool {
    is_listed(targets, hit.target.parent_actor_type)
}

/// The state after a hit, with the deaths that its player had before it came in.
pub open spec fn after_hit(
    state: Replayed,
    time: i64,
    hit: DamageEvent,
    samples: Seq<(i32, i32)>,
) -> Replayed {
    let actor = hit.source.parent_index;
    let derived = after_damage(state.derived, time, hit_among(hit, samples));
    Replayed {
        derived: if state.deaths.contains_key(actor) {
            with_deaths(derived, actor, state.deaths[actor])
        } else {
            derived
        },
        deaths: state.deaths,
    }
}

/// The state after a gauge was set.
pub open spec fn after_gauge(
    state: Replayed,
    rules: ReplayRules,
    actor_index: u32,
    sba: Float32,
) -> Replayed {
    if rules.gauges {
        Replayed {
            derived: with_sba(state.derived, owner_of(rules.parents, actor_index), sba),
            deaths: state.deaths,
        }
    } else {
        state
    }
}

/// The state after one more report. The encounter lasts until its last hit, whoever was hit.
pub open spec fn replay_step(state: Replayed, rules: ReplayRules, entry: (i64, Message)) -> Replayed {
    match entry.1 {
        Message::DamageEvent(event) => {
            let hit = adjusted(event, rules.players, rules.parents);
            if counts(rules.targets, hit) {
                after_hit(state, entry.0, hit, rules.samples)
            } else {
                Replayed {
                    derived: DerivedModel { end_time: entry.0, ..state.derived },
                    deaths: state.deaths,
                }
            }
        },
        Message::OnUpdateSBA(event) => after_gauge(state, rules, event.actor_index, event.sba_value),
        Message::OnAttemptSBA(event) => after_gauge(
            state,
            rules,
            event.actor_index,
            Float32 { bits: ONE_THOUSAND_BITS },
        ),
        Message::OnPerformSBA(event) => after_gauge(
            state,
            rules,
            event.actor_index,
            Float32 { bits: 0 },
        ),
        Message::OnDeathEvent(event) => {
            let actor = owner_of(rules.parents, event.actor_index);
            let deaths = deaths_after(state.deaths, actor, event.death_counter, event.is_delta);
            Replayed { derived: with_deaths(state.derived, actor, deaths[actor]), deaths }
        },
        _ => state,
    }
}

/// The state after all reports of a log.
pub open spec fn replay(start: DerivedModel, rules: ReplayRules, log: Seq<(i64, Message)>) -> Replayed
    decreases log.len(),
{
    if log.len() == 0 {
        Replayed { derived: start, deaths: Map::empty() }
    } else {
        replay_step(replay(start, rules, log.drop_last()), rules, log.last())
    }
}

/// The state in which a replay of `log` starts.
pub open spec fn replay_start(log: Seq<(i64, Message)>, status: ParserStatus) -> DerivedModel {
    DerivedModel { start_time: first_time(log), end_time: first_time(log), status, ..empty_derived() }
}

/// What a replay of the encounter of `parser` goes by.
pub open spec fn replay_rules(parser: ParserModel, gauges: bool, targets: Seq<EnemyType>) -> ReplayRules {
    let log = parser.encounter.raw_event_log;
    let players = parser.encounter.player_data;
    let parents = parents_in(log);
    ReplayRules { players, parents, samples: cap_samples(log, players, parents), gauges, targets }
}

/// A parser after its encounter was parsed again.
pub open spec fn reparsed(parser: ParserModel, gauges: bool, targets: Seq<EnemyType>) -> ParserModel {
    let log = parser.encounter.raw_event_log;
    let result = replay(
        replay_start(log, parser.status),
        replay_rules(parser, gauges, targets),
        log,
    );
    ParserModel {
        derived_state: result.derived,
        death_counts: result.deaths,
        id_transformation_parents: parents_in(log),
        ..parser
    }
}

/// The parser of an encounter.
pub open spec fn opened(encounter: EncounterModel) -> ParserModel {
    reparsed((ParserModel { encounter, ..empty_parser() }), true, Seq::empty())
}

/// The parser of an encounter as it was recorded.
pub open spec fn opened_record(encounter: EncounterModel) -> ParserModel {
    opened(EncounterModel { raw_event_log: recorded_log(encounter), ..encounter })
}

/// A parser that holds hits as older logs do.
pub open spec fn holding_hits(event_log: Seq<(i64, DamageEvent)>) -> ParserModel {
    ParserModel {
        encounter: EncounterModel { event_log, ..empty_encounter() },
        status: ParserStatus::Stopped,
        ..empty_parser()
    }
}

/// What `n` reports at most add up to.
pub proof fn lemma_replay_bounded(start: DerivedModel, rules: ReplayRules, log: Seq<(i64, Message)>)
    requires
        log.len() <= LOG_LIMIT,
        forall|i: int|
            0 <= i < log.len() ==> ((#[trigger] log[i]).1 matches Message::DamageEvent(event)
                ==> event.damage >= 0),
        start.bounded(0),
    ensures
        replay(start, rules, log).derived.bounded(log.len()),
        replay(start, rules, log).derived.start_time == start.start_time,
    decreases log.len(),
{
    if log.len() > 0 {
        let before = log.drop_last();
        assert forall|i: int| 0 <= i < before.len() implies ((#[trigger] before[i]).1 matches
            Message::DamageEvent(event) ==> event.damage >= 0) by {
            assert(before[i] == log[i]);
        }
        lemma_replay_bounded(start, rules, before);
        lemma_step_bounded(replay(start, rules, before), rules, log.last(), before.len());
    }
}

/// What is worked out of a log adds up.
pub proof fn lemma_reparsed_sums(parser: ParserModel, gauges: bool, targets: Seq<EnemyType>)
    requires
        log_ok(parser.encounter.raw_event_log),
    ensures
        sums_ok(reparsed(parser, gauges, targets)),
        reparsed(parser, gauges, targets).derived_state.start_time == first_time(
            parser.encounter.raw_event_log,
        ),
{
    let log = parser.encounter.raw_event_log;
    assert forall|i: int| 0 <= i < log.len() implies ((#[trigger] log[i]).1 matches
        Message::DamageEvent(event) ==> event.damage >= 0) by {
        assert(entry_ok(log[i], first_time(log)));
    }
    lemma_replay_bounded(
        replay_start(log, parser.status),
        replay_rules(parser, gauges, targets),
        log,
    );
}

/// One report more raises the bound by at most one.
pub proof fn lemma_step_bounded(state: Replayed, rules: ReplayRules, entry: (i64, Message), n: nat)
    requires
        state.derived.bounded(n),
        n < LOG_LIMIT,
        entry.1 matches Message::DamageEvent(event) ==> event.damage >= 0,
    ensures
        replay_step(state, rules, entry).derived.bounded(n + 1),
        replay_step(state, rules, entry).derived.start_time == state.derived.start_time,
{
    let before = state.derived;
    lemma_derived_bounded_more(before, n, n + 1);
    match entry.1 {
        Message::DamageEvent(event) => {
            let hit = adjusted(event, rules.players, rules.parents);
            assert(hit.damage == event.damage);
            let actor = hit.source.parent_index;
            let full = hit_among(hit, rules.samples);
            lemma_derived_bounded(before, entry.0, full, n);
            if state.deaths.contains_key(actor) {
                lemma_setters_bounded(
                    after_damage(before, entry.0, full),
                    actor,
                    Float32 { bits: 0 },
                    state.deaths[actor],
                    n + 1,
                );
            }
        },
        Message::OnUpdateSBA(event) => {
            let actor = owner_of(rules.parents, event.actor_index);
            lemma_setters_bounded(before, actor, event.sba_value, 0, n + 1);
        },
        Message::OnAttemptSBA(event) => {
            let actor = owner_of(rules.parents, event.actor_index);
            lemma_setters_bounded(before, actor, Float32 { bits: ONE_THOUSAND_BITS }, 0, n + 1);
        },
        Message::OnPerformSBA(event) => {
            let actor = owner_of(rules.parents, event.actor_index);
            lemma_setters_bounded(before, actor, Float32 { bits: 0 }, 0, n + 1);
        },
        Message::OnDeathEvent(event) => {
            let actor = owner_of(rules.parents, event.actor_index);
            let deaths = deaths_after(state.deaths, actor, event.death_counter, event.is_delta);
            lemma_setters_bounded(before, actor, Float32 { bits: 0 }, deaths[actor], n + 1);
        },
        _ => {},
    }
}

impl Parser {
    /// The multipliers of critical hits that the log shows.
    pub fn learn_crit_multipliers(&self) -> (multipliers: Vec<CritMultiplier>)
        ensures
            learned(
                cap_samples(
                    self@.encounter.raw_event_log,
                    self@.encounter.player_data,
                    self@.id_transformation_parents,
                ),
                multipliers@,
            ),
    {
        let log = self.encounter.event_log();
        let ghost players = self@.encounter.player_data;
        let ghost parents = self@.id_transformation_parents;
        let mut samples: Vec<(i32, i32)> = Vec::new();
        let mut i: usize = 0;
        assert(log@.take(0) == Seq::<(i64, Message)>::empty());
        while i < log.len()
            invariant
                i <= log.len(),
                players == self@.encounter.player_data,
                parents == self@.id_transformation_parents,
                samples@ == cap_samples(log@.take(i as int), players, parents),
            decreases log.len() - i,
        {
            assert(log@.take(i + 1).drop_last() == log@.take(i as int));
            if let Message::DamageEvent(event) = &log[i].1 {
                let hit: DamageEvent = adjust(
                    event,
                    &self.encounter.player_data,
                    &self.id_transformation_parents,
                );
                if let Some(cap) = hit.damage_cap {
                    samples.push((hit.damage, cap));
                }
            }
            i = i + 1;
        }
        assert(log@.take(i as int) == log@);
        cap_detection::learn_crit_multipliers(samples.as_slice())
    }

    /// Works out the state of the encounter from its log.
    fn replay_log(&mut self, gauges: bool, targets: &[EnemyType])
        requires
            log_ok(old(self)@.encounter.raw_event_log),
        ensures
            final(self)@ == reparsed(old(self)@, gauges, targets@),
    {
        let ghost before = self@;
        let ghost log = self@.encounter.raw_event_log;
        let ghost rules = replay_rules(self@, gauges, targets@);
        self.id_transformation_parents = collect_id_transformation_parents(
            self.encounter.event_log(),
        );
        self.derived_state = DerivedEncounterState::default();
        let start: i64 = self.start_time();
        self.derived_state.start(start);
        self.derived_state.status = self.status;
        self.death_counts.clear();
        let crit_multipliers = self.learn_crit_multipliers();
        let ghost first = self.derived_state@;
        assert(first == replay_start(log, before.status));
        let mut i: usize = 0;
        assert(log.take(0) == Seq::<(i64, Message)>::empty());
        while i < self.encounter.raw_event_log.len()
            invariant
                i <= self.encounter.raw_event_log.len(),
                log == self.encounter.raw_event_log@,
                log_ok(log),
                self.encounter@ == before.encounter,
                self.status == before.status,
                self.last_encounter_emit_at == before.last_encounter_emit_at,
                self.encounter_update_pending == before.encounter_update_pending,
                self.id_transformation_parents@ == rules.parents,
                rules == replay_rules(before, gauges, targets@),
                rules.players == self.encounter@.player_data,
                learned(rules.samples, crit_multipliers@),
                first == replay_start(log, before.status),
                self.derived_state@ == replay(first, rules, log.take(i as int)).derived,
                self.death_counts@ == replay(first, rules, log.take(i as int)).deaths,
            decreases self.encounter.raw_event_log.len() - i,
        {
            proof {
                let done = log.take(i as int);
                assert forall|k: int| 0 <= k < done.len() implies ((#[trigger] done[k]).1 matches
                    Message::DamageEvent(event) ==> event.damage >= 0) by {
                    assert(entry_ok(log[k], first_time(log)));
                }
                lemma_replay_bounded(first, rules, done);
                lemma_derived_bounded_more(self.derived_state@, i as nat, (LOG_LIMIT - 1) as nat);
                assert(entry_ok(log[i as int], first_time(log)));
                assert(log.take(i + 1).drop_last() == done);
                assert(log.take(i + 1).last() == log[i as int]);
            }
            let ghost state = replay(first, rules, log.take(i as int));
            let timestamp: i64 = self.encounter.raw_event_log[i].0;
            match &self.encounter.raw_event_log[i].1 {
                Message::DamageEvent(event) => {
                    let event: DamageEvent = adjust(
                        event,
                        &self.encounter.player_data,
                        &self.id_transformation_parents,
                    );
                    if targets.len() == 0 || contains_enemy(
                        targets,
                        EnemyType::from_hash(event.target.parent_actor_type),
                    ) {
                        let player_data = match find_player(
                            &self.encounter.player_data,
                            event.source.parent_index,
                        ) {
                            Some(slot) => self.encounter.player_data[slot].as_ref(),
                            None => None,
                        };
                        let damage_instance =
                            AdjustedDamageInstance::from_damage_event_with_multipliers(
                            &event,
                            player_data,
                            crit_multipliers.as_slice(),
                        );
                        proof {
                            lemma_capped_among(
                                rules.samples,
                                crit_multipliers@,
                                event.damage,
                                event.damage_cap,
                            );
                        }
                        self.derived_state.process_damage_event(timestamp, &damage_instance);
                        restore_deaths(
                            &self.death_counts,
                            &mut self.derived_state,
                            event.source.parent_index,
                        );
                    } else {
                        self.derived_state.end_time = timestamp;
                    }
                },
                Message::OnUpdateSBA(event) => {
                    if gauges {
                        let actor: u32 = resolve_owner(
                            &self.id_transformation_parents,
                            event.actor_index,
                        );
                        self.derived_state.set_sba(actor, event.sba_value);
                    }
                },
                Message::OnAttemptSBA(event) => {
                    if gauges {
                        let actor: u32 = resolve_owner(
                            &self.id_transformation_parents,
                            event.actor_index,
                        );
                        self.derived_state.set_sba(actor, Float32::from_bits(ONE_THOUSAND_BITS));
                    }
                },
                Message::OnPerformSBA(event) => {
                    if gauges {
                        let actor: u32 = resolve_owner(
                            &self.id_transformation_parents,
                            event.actor_index,
                        );
                        self.derived_state.set_sba(actor, Float32::zero());
                    }
                },
                Message::OnDeathEvent(event) => {
                    apply_death_count(
                        &mut self.death_counts,
                        &mut self.derived_state,
                        &self.id_transformation_parents,
                        event.actor_index,
                        event.death_counter,
                        event.is_delta,
                    );
                },
                _ => {},
            }
            i = i + 1;
        }
        assert(log.take(i as int) == log);
    }

    /// Parses the encounter again.
    pub fn reparse(&mut self)
        requires
            log_ok(old(self)@.encounter.raw_event_log),
        ensures
            final(self)@ == reparsed(old(self)@, true, Seq::empty()),
            sums_ok(final(self)@),
            final(self)@.derived_state.start_time == first_time(
                final(self)@.encounter.raw_event_log,
            ),
    {
        let everyone: [EnemyType; 0] = [];
        assert(everyone@ == Seq::<EnemyType>::empty());
        proof {
            lemma_reparsed_sums(self@, true, Seq::empty());
        }
        self.replay_log(true, &everyone);
    }

    /// Parses the encounter again, counting only the hits on `targets` (all hits if
    /// there is none) and leaving the skybound art gauges out.
    pub fn reparse_with_options(&mut self, targets: &[EnemyType])
        requires
            log_ok(old(self)@.encounter.raw_event_log),
        ensures
            final(self)@ == reparsed(old(self)@, false, targets@),
            sums_ok(final(self)@),
            final(self)@.derived_state.start_time == first_time(
                final(self)@.encounter.raw_event_log,
            ),
    {
        proof {
            lemma_reparsed_sums(self@, false, targets@);
        }
        self.replay_log(false, targets);
    }

    /// A parser of a recorded encounter.
    pub fn from_encounter(encounter: Encounter) -> (parser: Self)
        requires
            log_ok(encounter@.raw_event_log),
        ensures
            parser@ == opened(encounter@),
    {
        let mut parser = Parser { encounter, ..Parser::default() };
        parser.reparse();
        parser
    }
}

/// The log of a recorded encounter: older records hold their hits elsewhere.
pub open spec fn recorded_log(encounter: EncounterModel) -> Seq<(i64, Message)> {
    if encounter.raw_event_log.len() > 0 {
        encounter.raw_event_log
    } else {
        hits_as_messages(encounter.event_log)
    }
}

impl Parser {
    /// A parser of an encounter that was unpacked from a binary blob.
    pub fn from_decoded_encounter(encounter: Encounter) -> (parser: Self)
        requires
            log_ok(recorded_log(encounter@)),
        ensures
            parser@ == opened_record(encounter@),
    {
        let mut encounter = encounter;
        encounter.repopulate_event_log();
        Self::from_encounter(encounter)
    }

    /// A parser of the hits of an older log. It has stopped, and nothing has been worked
    /// out yet.
    pub fn from_damage_event_log(event_log: Vec<(i64, DamageEvent)>) -> (parser: Self)
        ensures
            parser@ == holding_hits(event_log@),
    {
        let mut parser = Parser::default();
        parser.encounter.event_log = event_log;
        parser.status = ParserStatus::Stopped;
        parser
    }
}

/// Whether `targets` lists `enemy`.
fn contains_enemy(targets: &[EnemyType], enemy: EnemyType) -> (found: bool)
    ensures
        found == targets@.contains(enemy),
{
    let mut i: usize = 0;
    while i < targets.len()
        invariant
            i <= targets.len(),
            forall|k: int| 0 <= k < i ==> targets@[k] != enemy,
        decreases targets.len() - i,
    {
        if targets[i] == enemy {
            assert(targets@[i as int] == enemy);
            return true;
        }
        i = i + 1;
    }
    false
}

/// Gives player `index` the deaths that were counted for it.
pub fn restore_deaths(
    death_counts: &HashMap<u32, u32>,
    derived_state: &mut DerivedEncounterState,
    index: u32,
)
    ensures
        final(derived_state)@ == (if death_counts@.contains_key(index) {
            with_deaths(old(derived_state)@, index, death_counts@[index])
        } else {
            old(derived_state)@
        }),
{
    broadcast use vstd::std_specs::hash::group_hash_axioms;

    if let Some(deaths) = death_counts.get(&index) {
        derived_state.set_deaths(index, *deaths);
    }
}

} // verus!
