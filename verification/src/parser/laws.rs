//! What holds of the parser as a whole.

use vstd::prelude::*;

use crate::constants::EnemyType;
use crate::derived::{after_damage, DerivedModel, EnemyState, ParserStatus};
use crate::encounter::{empty_party, PlayerDataModel};
use crate::float32::Float32;
use crate::parser::attribution::{
    adjusted, cap_enabled, deaths_after, is_player, observed_parent, owner_of, parents_in,
    parents_with, resolved, restricted,
};
use crate::parser::live::{
    after_damage_event, after_death_event, after_gauge_event, can_take_damage, damage_taken, engaged,
    flushed, ignored, lemma_log_grows, logged, pending, running, update_due,
    ENCOUNTER_EMIT_INTERVAL_MS,
};
use crate::parser::party::seated;
use crate::parser::replay::{
    counts, entry_ok, is_listed, lemma_replay_bounded, log_ok, replay, replay_rules, replay_start,
    replay_step, reparsed, Replayed, ReplayRules,
};
use crate::parser::save::{
    area_entered, area_prepared, finished, quest_completed, worth_saving,
};
use crate::parser::sba::{
    carried, explicit_uses, gauge_chart, inferred_uses, sampled, sba_uses,
};
use crate::parser::{first_time, ParserModel};
use crate::player_state::{hit_among, PlayerModel, HIT_LIMIT, LOG_LIMIT};
use crate::protocol::{AreaEnterEvent, DamageEvent, Message, OnDeathEvent, QuestCompleteEvent};

verus! {

/// Parsing an encounter again changes nothing the second time.
pub proof fn law_reparse_is_idempotent(parser: ParserModel, gauges: bool, targets: Seq<EnemyType>)
    ensures
        reparsed(reparsed(parser, gauges, targets), gauges, targets) == reparsed(
            parser,
            gauges,
            targets,
        ),
{
}

/// What parsing again gives depends on the encounter and the status alone.
pub proof fn law_reparse_forgets(a: ParserModel, b: ParserModel, gauges: bool, targets: Seq<EnemyType>)
    requires
        a.encounter == b.encounter,
        a.status == b.status,
    ensures
        reparsed(a, gauges, targets).derived_state == reparsed(b, gauges, targets).derived_state,
        reparsed(a, gauges, targets).death_counts == reparsed(b, gauges, targets).death_counts,
        reparsed(a, gauges, targets).id_transformation_parents == reparsed(
            b,
            gauges,
            targets,
        ).id_transformation_parents,
{
}

/// Counting a hit a second time as it counts changes nothing: a log may hold hits as they
/// were reported or as they count.
pub proof fn law_adjusting_is_idempotent(
    event: DamageEvent,
    players: Seq<Option<PlayerDataModel>>,
    parents: Map<u32, u32>,
)
    ensures
        adjusted(adjusted(event, players, parents), players, parents) == adjusted(
            event,
            players,
            parents,
        ),
{
    let once = resolved(event, players, parents);
    let hit = restricted(once, players);
    assert(resolved(hit, players, parents) == hit);
}

/// A hit counts with a damage cap only if it is one of the local player or of a player the
/// machine controls.
pub proof fn law_only_trusted_caps(
    event: DamageEvent,
    players: Seq<Option<PlayerDataModel>>,
    parents: Map<u32, u32>,
)
    ensures
        adjusted(event, players, parents).damage_cap is Some ==> cap_enabled(
            players,
            adjusted(event, players, parents).source.parent_index,
        ),
{
}

/// The first owner that a log shows for a transformation stands, whatever comes later.
pub proof fn law_first_owner_stands(
    log: Seq<(i64, Message)>,
    later: Seq<(i64, Message)>,
    transformation: u32,
)
    requires
        parents_in(log).contains_key(transformation),
    ensures
        parents_in(log + later).contains_key(transformation),
        parents_in(log + later)[transformation] == parents_in(log)[transformation],
    decreases later.len(),
{
    if later.len() == 0 {
        assert(log + later == log);
    } else {
        law_first_owner_stands(log, later.drop_last(), transformation);
        assert((log + later).drop_last() == log + later.drop_last());
    }
}

/// The total of the damage in a log to the enemies that are listed (all of them if there is
/// none).
pub open spec fn damage_sum(log: Seq<(i64, Message)>, targets: Seq<EnemyType>) -> int
    decreases log.len(),
{
    if log.len() == 0 {
        0
    } else {
        damage_sum(log.drop_last(), targets) + match log.last().1 {
            Message::DamageEvent(event) => if counts(targets, event) {
                event.damage as int
            } else {
                0
            },
            _ => 0,
        }
    }
}

/// Whether the total damage is that of the log.
pub open spec fn totals_match(parser: ParserModel) -> bool {
    parser.derived_state.total_damage == damage_sum(parser.encounter.raw_event_log, Seq::empty())
}

/// Whether only enemies that are listed stand in a state.
pub open spec fn only_listed(state: DerivedModel, targets: Seq<EnemyType>) -> bool {
    forall|index: u32| #[trigger]
        state.targets.contains_key(index) ==> is_listed(targets, state.targets[index].raw_target_type)
}

proof fn lemma_replay_total(start: DerivedModel, rules: ReplayRules, log: Seq<(i64, Message)>)
    requires
        log.len() <= LOG_LIMIT,
        forall|i: int|
            0 <= i < log.len() ==> ((#[trigger] log[i]).1 matches Message::DamageEvent(event)
                ==> event.damage >= 0),
        start.total_damage == 0,
        start.targets == Map::<u32, EnemyState>::empty(),
        start.bounded(0),
    ensures
        replay(start, rules, log).derived.total_damage == damage_sum(log, rules.targets),
        only_listed(replay(start, rules, log).derived, rules.targets),
    decreases log.len(),
{
    if log.len() > 0 {
        let before = log.drop_last();
        assert forall|i: int| 0 <= i < before.len() implies ((#[trigger] before[i]).1 matches
            Message::DamageEvent(event) ==> event.damage >= 0) by {
            assert(before[i] == log[i]);
        }
        lemma_replay_total(start, rules, before);
        lemma_replay_bounded(start, rules, before);
        let state = replay(start, rules, before);
        assert(state.derived.total_damage <= before.len() * HIT_LIMIT);
        assert(log[log.len() - 1] == log.last());
        match log.last().1 {
            Message::DamageEvent(event) => {
                let hit = adjusted(event, rules.players, rules.parents);
                assert(hit.damage == event.damage && hit.target == event.target);
                assert(state.derived.total_damage + event.damage <= u64::MAX);
            },
            _ => {},
        }
        let after = replay(start, rules, log).derived;
        assert forall|index: u32| #[trigger] after.targets.contains_key(index) implies is_listed(
            rules.targets,
            after.targets[index].raw_target_type,
        ) by {
            if state.derived.targets.contains_key(index) {
                assert(is_listed(rules.targets, state.derived.targets[index].raw_target_type));
            }
        }
    }
}

/// Parsing again gives the total of the damage in the log to the enemies that are listed, and
/// only such enemies stand in the state.
pub proof fn law_reparse_totals(parser: ParserModel, gauges: bool, targets: Seq<EnemyType>)
    requires
        log_ok(parser.encounter.raw_event_log),
    ensures
        reparsed(parser, gauges, targets).derived_state.total_damage == damage_sum(
            parser.encounter.raw_event_log,
            targets,
        ),
        only_listed(reparsed(parser, gauges, targets).derived_state, targets),
        targets.len() == 0 ==> totals_match(reparsed(parser, gauges, targets)),
{
    let log = parser.encounter.raw_event_log;
    assert forall|i: int| 0 <= i < log.len() implies ((#[trigger] log[i]).1 matches
        Message::DamageEvent(event) ==> event.damage >= 0) by {
        assert(entry_ok(log[i], first_time(log)));
    }
    lemma_replay_total(
        replay_start(log, parser.status),
        replay_rules(parser, gauges, targets),
        log,
    );
    if targets.len() == 0 {
        assert(targets == Seq::<EnemyType>::empty());
    }
}

/// Taking in hits keeps the total damage that of the log.
pub proof fn law_hits_keep_totals(parser: ParserModel, now: i64, event: DamageEvent)
    requires
        can_take_damage(parser, now),
        totals_match(parser),
    ensures
        totals_match(after_damage_event(parser, now, event)),
{
    if !ignored(event) {
        let start = engaged(parser, now);
        assert(totals_match(start));
        let log = start.encounter.raw_event_log;
        let parents = parents_with(start.id_transformation_parents, observed_parent(event));
        let hit = adjusted(event, start.encounter.player_data, parents);
        let longer = log.push((now, Message::DamageEvent(hit)));
        assert(longer.drop_last() == log);
        lemma_log_grows(log, now, Message::DamageEvent(hit));
        let next = logged(
            ParserModel { id_transformation_parents: parents, ..start },
            now,
            Message::DamageEvent(hit),
        );
        law_reparse_totals(next, true, Seq::empty());
        assert(start.derived_state.total_damage <= log.len() * HIT_LIMIT);
        assert(start.derived_state.total_damage + hit.damage <= u64::MAX);
        assert(damage_sum(longer, Seq::empty()) == damage_sum(log, Seq::empty()) + hit.damage);
        let taken = damage_taken(start, now, event);
        assert(taken.encounter.raw_event_log == longer);
        assert(totals_match(taken));
    }
}

/// Taking in gauges keeps the total damage that of the log.
pub proof fn law_gauges_keep_totals(
    parser: ParserModel,
    now: i64,
    message: Message,
    actor_index: u32,
    sba: Float32,
)
    requires
        totals_match(parser),
        !(message is DamageEvent),
    ensures
        totals_match(after_gauge_event(parser, now, message, actor_index, sba)),
{
    let log = parser.encounter.raw_event_log;
    assert(log.push((now, message)).drop_last() == log);
}

/// Taking in deaths keeps the total damage that of the log.
pub proof fn law_deaths_keep_totals(parser: ParserModel, now: i64, event: OnDeathEvent)
    requires
        totals_match(parser),
    ensures
        totals_match(after_death_event(parser, now, event)),
{
    let start = running(parser, now);
    assert(totals_match(start));
    let log = start.encounter.raw_event_log;
    let longer = log.push((now, Message::OnDeathEvent(event)));
    assert(longer.drop_last() == log);
    assert(damage_sum(longer, Seq::empty()) == damage_sum(log, Seq::empty()));
}

/// Parsing a running encounter again gives the total damage it had.
pub proof fn law_reparse_recovers_total(parser: ParserModel)
    requires
        log_ok(parser.encounter.raw_event_log),
        totals_match(parser),
    ensures
        reparsed(parser, true, Seq::empty()).derived_state.total_damage
            == parser.derived_state.total_damage,
{
    law_reparse_totals(parser, true, Seq::empty());
}

/// Two players that differ in the level of their gauge at most.
pub open spec fn same_but_gauge(a: PlayerModel, b: PlayerModel) -> bool {
    PlayerModel { sba: b.sba, ..a } == b
}

/// Two states that differ in the levels of gauges at most.
pub open spec fn same_but_gauges(a: DerivedModel, b: DerivedModel) -> bool {
    &&& DerivedModel { party: b.party, ..a } == b
    &&& forall|index: u32| #[trigger] a.party.contains_key(index) <==> b.party.contains_key(index)
    &&& forall|index: u32| #[trigger]
        a.party.contains_key(index) ==> same_but_gauge(a.party[index], b.party[index])
}

proof fn lemma_step_without_gauges(a: Replayed, b: Replayed, rules: ReplayRules, entry: (i64, Message))
    requires
        same_but_gauges(a.derived, b.derived),
        a.deaths == b.deaths,
    ensures
        same_but_gauges(
            replay_step(a, ReplayRules { gauges: true, ..rules }, entry).derived,
            replay_step(b, ReplayRules { gauges: false, ..rules }, entry).derived,
        ),
        replay_step(a, ReplayRules { gauges: true, ..rules }, entry).deaths == replay_step(
            b,
            ReplayRules { gauges: false, ..rules },
            entry,
        ).deaths,
{
    let with = replay_step(a, ReplayRules { gauges: true, ..rules }, entry).derived;
    let without = replay_step(b, ReplayRules { gauges: false, ..rules }, entry).derived;
    assert forall|index: u32| #[trigger]
        with.party.contains_key(index) <==> without.party.contains_key(index) by {
        assert(a.derived.party.contains_key(index) <==> b.derived.party.contains_key(index));
    }
    assert forall|index: u32| #[trigger] with.party.contains_key(index) implies same_but_gauge(
        with.party[index],
        without.party[index],
    ) by {
        if a.derived.party.contains_key(index) {
            assert(same_but_gauge(a.derived.party[index], b.derived.party[index]));
        }
    }
    assert(DerivedModel { party: without.party, ..with } == without) by {
        match entry.1 {
            Message::DamageEvent(event) => {
                let hit = adjusted(event, rules.players, rules.parents);
                let x = DerivedModel { end_time: entry.0, ..a.derived };
                let y = DerivedModel { end_time: entry.0, ..b.derived };
                let full = hit_among(hit, rules.samples);
                assert(after_damage(x, entry.0, full).targets == after_damage(
                    y,
                    entry.0,
                    full,
                ).targets);
                assert(after_damage(x, entry.0, full).stun_values == after_damage(
                    y,
                    entry.0,
                    full,
                ).stun_values);
            },
            _ => {},
        }
    }
}

proof fn lemma_replay_without_gauges(start: DerivedModel, rules: ReplayRules, log: Seq<(i64, Message)>)
    ensures
        same_but_gauges(
            replay(start, ReplayRules { gauges: true, ..rules }, log).derived,
            replay(start, ReplayRules { gauges: false, ..rules }, log).derived,
        ),
        replay(start, ReplayRules { gauges: true, ..rules }, log).deaths == replay(
            start,
            ReplayRules { gauges: false, ..rules },
            log,
        ).deaths,
    decreases log.len(),
{
    if log.len() > 0 {
        lemma_replay_without_gauges(start, rules, log.drop_last());
        lemma_step_without_gauges(
            replay(start, ReplayRules { gauges: true, ..rules }, log.drop_last()),
            replay(start, ReplayRules { gauges: false, ..rules }, log.drop_last()),
            rules,
            log.last(),
        );
    }
}

/// Parsing again with options, but no list of targets, gives what parsing again gives, but
/// for the levels of the gauges.
pub proof fn law_no_targets_means_all(parser: ParserModel)
    ensures
        same_but_gauges(
            reparsed(parser, true, Seq::empty()).derived_state,
            reparsed(parser, false, Seq::empty()).derived_state,
        ),
        reparsed(parser, true, Seq::empty()).death_counts == reparsed(
            parser,
            false,
            Seq::empty(),
        ).death_counts,
{
    let log = parser.encounter.raw_event_log;
    let rules = replay_rules(parser, true, Seq::empty());
    assert(ReplayRules { gauges: true, ..rules } == rules);
    assert(ReplayRules { gauges: false, ..rules } == replay_rules(parser, false, Seq::empty()));
    lemma_replay_without_gauges(replay_start(log, parser.status), rules, log);
}

/// The deaths that a log tells of, by actor.
pub open spec fn deaths_in(log: Seq<(i64, Message)>, parents: Map<u32, u32>) -> Map<u32, u32>
    decreases log.len(),
{
    if log.len() == 0 {
        Map::empty()
    } else {
        let before = deaths_in(log.drop_last(), parents);
        match log.last().1 {
            Message::OnDeathEvent(event) => deaths_after(
                before,
                owner_of(parents, event.actor_index),
                event.death_counter,
                event.is_delta,
            ),
            _ => before,
        }
    }
}

proof fn lemma_replay_deaths(start: DerivedModel, rules: ReplayRules, log: Seq<(i64, Message)>)
    ensures
        replay(start, rules, log).deaths == deaths_in(log, rules.parents),
    decreases log.len(),
{
    if log.len() > 0 {
        lemma_replay_deaths(start, rules, log.drop_last());
    }
}

/// Parsing again counts the deaths that the log tells of.
pub proof fn law_reparse_deaths(parser: ParserModel, gauges: bool, targets: Seq<EnemyType>)
    ensures
        reparsed(parser, gauges, targets).death_counts == deaths_in(
            parser.encounter.raw_event_log,
            parents_in(parser.encounter.raw_event_log),
        ),
{
    lemma_replay_deaths(
        replay_start(parser.encounter.raw_event_log, parser.status),
        replay_rules(parser, gauges, targets),
        parser.encounter.raw_event_log,
    );
}

/// A death is counted live as the log tells it.
pub proof fn law_deaths_are_counted_live(parser: ParserModel, now: i64, event: OnDeathEvent)
    requires
        parser.death_counts == deaths_in(
            parser.encounter.raw_event_log,
            parser.id_transformation_parents,
        ),
    ensures
        after_death_event(parser, now, event).death_counts == deaths_in(
            after_death_event(parser, now, event).encounter.raw_event_log,
            after_death_event(parser, now, event).id_transformation_parents,
        ),
{
    let start = running(parser, now);
    let log = start.encounter.raw_event_log;
    assert(start.death_counts == deaths_in(log, start.id_transformation_parents));
    assert(log.push((now, Message::OnDeathEvent(event))).drop_last() == log);
}

/// A count of deaths never falls.
pub proof fn law_deaths_never_fall(
    deaths: Map<u32, u32>,
    actor: u32,
    counter: u32,
    is_delta: bool,
    other: u32,
)
    requires
        deaths.contains_key(other),
    ensures
        deaths_after(deaths, actor, counter, is_delta).contains_key(other),
        deaths_after(deaths, actor, counter, is_delta)[other] >= deaths[other],
{
}

/// No two updates are sent within the interval: once one was sent at time `now`, what comes
/// up before the interval is over waits.
pub proof fn law_updates_are_spaced(parser: ParserModel, now: i64, later: i64)
    requires
        update_due(parser, now),
        now != 0,
        later - now < ENCOUNTER_EMIT_INTERVAL_MS,
    ensures
        !update_due(pending(flushed(parser, now)), later),
{
}

/// No update is lost: what waits is sent once the interval is over.
pub proof fn law_no_update_is_lost(parser: ParserModel, now: i64, later: i64)
    requires
        parser.encounter_update_pending,
        !update_due(parser, now),
        later - parser.last_encounter_emit_at >= ENCOUNTER_EMIT_INTERVAL_MS,
    ensures
        flushed(parser, now) == parser,
        update_due(flushed(parser, now), later),
        !flushed(flushed(parser, now), later).encounter_update_pending,
{
}

/// An encounter is saved once: after it was, there is nothing worth saving until a new one
/// starts.
pub proof fn law_saved_once(parser: ParserModel, area: AreaEnterEvent, quest: QuestCompleteEvent)
    ensures
        !worth_saving(finished(parser)),
        !worth_saving(area_entered(parser, area)),
        !worth_saving(quest_completed(parser, quest)),
        finished(parser).status == ParserStatus::Stopped,
{
}

/// The next area starts without a party and without a completed quest, and keeps the log of
/// the encounter before it.
pub proof fn law_area_starts_afresh(parser: ParserModel, area: AreaEnterEvent)
    ensures
        area_prepared(area_entered(parser, area)).encounter.player_data == empty_party(),
        !area_prepared(area_entered(parser, area)).encounter.quest_completed,
        area_prepared(area_entered(parser, area)).encounter.raw_event_log
            == parser.encounter.raw_event_log,
{
}

/// A player sits in one slot at most, and the others stay where they are.
pub proof fn law_one_seat(
    players: Seq<Option<PlayerDataModel>>,
    player: PlayerDataModel,
    party_index: u8,
    i: int,
)
    requires
        0 <= i < players.len(),
    ensures
        is_player(seated(players, player, party_index)[i], player.actor_index) ==> i == party_index,
        i != party_index && !is_player(players[i], player.actor_index) ==> seated(
            players,
            player,
            party_index,
        )[i] == players[i],
{
}

proof fn lemma_sampled_len(
    log: Seq<(i64, Message)>,
    start: i64,
    parents: Map<u32, u32>,
    actor: u32,
    interval: int,
    len: nat,
)
    ensures
        sampled(log, start, parents, actor, interval, len).len() == len,
    decreases log.len(),
{
    if log.len() > 0 {
        lemma_sampled_len(log.drop_last(), start, parents, actor, interval, len);
    }
}

proof fn lemma_carried(samples: Seq<Option<Float32>>, j: int)
    requires
        0 <= j < samples.len(),
    ensures
        carried(samples).len() == samples.len(),
        carried(samples)[j] == match samples[j] {
            Some(level) => level,
            None => if j > 0 {
                carried(samples)[j - 1]
            } else {
                Float32 { bits: 0 }
            },
        },
    decreases samples.len(),
{
    reveal_with_fuel(carried, 2);
    if samples.len() > 1 {
        let before = samples.drop_last();
        if j < before.len() {
            lemma_carried(before, j);
        } else {
            lemma_carried(before, 0);
        }
    }
}

/// A chart has one level for each interval: the last one reported in it, or else that of the
/// interval before, or else zero.
pub proof fn law_chart_carries_levels(
    log: Seq<(i64, Message)>,
    parents: Map<u32, u32>,
    actor: u32,
    interval: int,
    len: nat,
    j: int,
)
    requires
        0 <= j < len,
    ensures
        gauge_chart(log, parents, actor, interval, len).len() == len,
        gauge_chart(log, parents, actor, interval, len)[j] == match sampled(
            log,
            first_time(log),
            parents,
            actor,
            interval,
            len,
        )[j] {
            Some(level) => level,
            None => if j > 0 {
                gauge_chart(log, parents, actor, interval, len)[j - 1]
            } else {
                Float32 { bits: 0 }
            },
        },
{
    lemma_sampled_len(log, first_time(log), parents, actor, interval, len);
    lemma_carried(sampled(log, first_time(log), parents, actor, interval, len), j);
}

/// Uses of skybound arts are inferred only where none was reported, and only as performed.
pub proof fn law_inferred_uses(log: Seq<(i64, Message)>, parents: Map<u32, u32>, i: int)
    ensures
        explicit_uses(log, parents).len() > 0 ==> sba_uses(log, parents) == explicit_uses(
            log,
            parents,
        ),
        explicit_uses(log, parents).len() == 0 && 0 <= i < sba_uses(log, parents).len() ==> sba_uses(
            log,
            parents,
        )[i].1 is OnPerformSBA,
{
    lemma_inferred_uses(log, parents, i);
}

proof fn lemma_inferred_uses(log: Seq<(i64, Message)>, parents: Map<u32, u32>, i: int)
    ensures
        0 <= i < inferred_uses(log, parents).len() ==> inferred_uses(log, parents)[i].1 is OnPerformSBA,
    decreases log.len(),
{
    if log.len() > 0 {
        lemma_inferred_uses(log.drop_last(), parents, i);
    }
}

} // verus!
