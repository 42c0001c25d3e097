//! The totals add up: over skills, over players and over enemies.

use vstd::prelude::*;

use crate::constants::EnemyType;
use crate::derived::{
    after_damage, enemy_after, new_enemy, with_deaths, with_sba, DerivedModel, EnemyState,
    ParserStatus,
};
use crate::float32::{Float32, ONE_THOUSAND_BITS};
use crate::parser::attribution::{adjusted, deaths_after, observed_parent, owner_of, parents_with};
use crate::parser::live::{
    after_damage_event, after_death_event, after_gauge_event, can_take_damage, engaged, ignored,
    lemma_log_grows, logged, running,
};
use crate::parser::replay::{
    entry_ok, lemma_replay_bounded, log_ok, replay, replay_rules, replay_start, replay_step, reparsed,
    Replayed, ReplayRules,
};
use crate::parser::{first_time, ParserModel};
use crate::player_state::{
    hit_among, hit_of, new_player, new_skill, player_after, skill_after, skill_position, Hit,
    PlayerModel, SkillState, HIT_LIMIT, LOG_LIMIT,
};
use crate::protocol::{DamageEvent, Message, OnDeathEvent};

verus! {

/// What the values of a finite map add up to.
pub open spec fn sum_of(values: Map<u32, int>) -> int
    decreases values.dom().len(),
    when values.dom().finite()
{
    if values.dom().is_empty() {
        0
    } else {
        let key = values.dom().choose();
        values[key] + sum_of(values.remove(key))
    }
}

/// Any key may be taken out first.
proof fn lemma_sum_remove(values: Map<u32, int>, key: u32)
    requires
        values.dom().finite(),
        values.contains_key(key),
    ensures
        sum_of(values) == values[key] + sum_of(values.remove(key)),
    decreases values.dom().len(),
{
    let first = values.dom().choose();
    if first != key {
        assert(values.dom().contains(first));
        lemma_sum_remove(values.remove(first), key);
        lemma_sum_remove(values.remove(key), first);
        assert(values.remove(first).remove(key) == values.remove(key).remove(first));
    }
}

/// What putting a value in adds.
pub proof fn lemma_sum_insert(values: Map<u32, int>, key: u32, value: int)
    requires
        values.dom().finite(),
    ensures
        sum_of(values.insert(key, value)) == sum_of(values) + value - (if values.contains_key(key) {
            values[key]
        } else {
            0
        }),
{
    let after = values.insert(key, value);
    lemma_sum_remove(after, key);
    if values.contains_key(key) {
        lemma_sum_remove(values, key);
        assert(after.remove(key) == values.remove(key));
    } else {
        assert(after.remove(key) == values);
    }
}

/// The total damage of each player.
pub open spec fn player_totals(party: Map<u32, PlayerModel>) -> Map<u32, int> {
    party.map_values(|player: PlayerModel| player.total_damage as int)
}

/// The total damage to each enemy.
pub open spec fn enemy_totals(targets: Map<u32, EnemyState>) -> Map<u32, int> {
    targets.map_values(|enemy: EnemyState| enemy.total_damage as int)
}

/// What the skills of a player add up to: damage, capped hits and hits with a known cap.
pub open spec fn skill_sums(skills: Seq<SkillState>) -> (int, int, int)
    decreases skills.len(),
{
    if skills.len() == 0 {
        (0, 0, 0)
    } else {
        let (damage, capped, known) = skill_sums(skills.drop_last());
        (
            damage + skills.last().total_damage,
            capped + skills.last().capped_hits,
            known + skills.last().cap_known_hits,
        )
    }
}

/// Whether the totals of a player are those of its skills, and no more hits are capped than
/// have a known cap, nor have more a known cap than there are.
pub open spec fn player_adds_up(player: PlayerModel) -> bool {
    &&& skill_sums(player.skill_breakdown) == (
        player.total_damage as int,
        player.capped_hits as int,
        player.cap_known_hits as int,
    )
    &&& player.capped_hits <= player.cap_known_hits
    &&& forall|i: int|
        0 <= i < player.skill_breakdown.len() ==> {
            let skill = #[trigger] player.skill_breakdown[i];
            skill.capped_hits <= skill.cap_known_hits <= skill.hits
        }
}

/// Whether the totals of a state add up.
pub open spec fn adds_up(state: DerivedModel) -> bool {
    &&& state.party.dom().finite()
    &&& state.targets.dom().finite()
    &&& sum_of(player_totals(state.party)) == state.total_damage
    &&& sum_of(enemy_totals(state.targets)) == state.total_damage
    &&& forall|index: u32| #[trigger]
        state.party.contains_key(index) ==> player_adds_up(state.party[index])
}

proof fn lemma_skill_sums_update(skills: Seq<SkillState>, i: int, skill: SkillState)
    requires
        0 <= i < skills.len(),
    ensures
        skill_sums(skills.update(i, skill)) == ({
            let (damage, capped, known) = skill_sums(skills);
            (
                damage + skill.total_damage - skills[i].total_damage,
                capped + skill.capped_hits - skills[i].capped_hits,
                known + skill.cap_known_hits - skills[i].cap_known_hits,
            )
        }),
    decreases skills.len(),
{
    let after = skills.update(i, skill);
    if i == skills.len() - 1 {
        assert(after.drop_last() == skills.drop_last());
    } else {
        lemma_skill_sums_update(skills.drop_last(), i, skill);
        assert(after.drop_last() == skills.drop_last().update(i, skill));
    }
}

proof fn lemma_player_adds_up(player: PlayerModel, hit: Hit, n: nat)
    requires
        player_adds_up(player),
        player.bounded(n),
        n < LOG_LIMIT,
        hit.event.damage >= 0,
        hit.is_capped ==> hit.cap_known,
    ensures
        player_adds_up(player_after(player, hit)),
{
    let skills = player.skill_breakdown;
    let after = player_after(player, hit);
    let position = skill_position(skills, hit.event) as int;
    if position < skills.len() {
        assert(skills[position].bounded(n));
        lemma_skill_sums_update(skills, position, skill_after(skills[position], hit));
    } else {
        let added = skill_after(new_skill(hit.event), hit);
        assert(skills.push(added).drop_last() == skills);
    }
    assert forall|i: int| 0 <= i < after.skill_breakdown.len() implies {
        let skill = #[trigger] after.skill_breakdown[i];
        skill.capped_hits <= skill.cap_known_hits <= skill.hits
    } by {
        if i < skills.len() {
            assert(skills[i].bounded(n));
            let skill = skills[i];
            assert(skill.capped_hits <= skill.cap_known_hits <= skill.hits);
        }
    }
}

/// One more hit keeps the totals adding up.
pub proof fn law_hits_add_up(state: DerivedModel, now: i64, hit: Hit, n: nat)
    requires
        adds_up(state),
        state.bounded(n),
        n < LOG_LIMIT,
        hit.event.damage >= 0,
        hit.is_capped ==> hit.cap_known,
    ensures
        adds_up(after_damage(state, now, hit)),
{
    let after = after_damage(state, now, hit);
    let source = hit.event.source.parent_index;
    let target = hit.event.target.parent_index;
    let player = if state.party.contains_key(source) {
        state.party[source]
    } else {
        new_player(hit.event)
    };
    let enemy = if state.targets.contains_key(target) {
        state.targets[target]
    } else {
        new_enemy(hit.event)
    };
    assert(player.bounded(n));
    assert(player_adds_up(player));
    lemma_player_adds_up(player, hit, n);
    assert(enemy.total_damage <= n * HIT_LIMIT);
    assert(player_totals(after.party) == player_totals(state.party).insert(
        source,
        player_after(player, hit).total_damage as int,
    ));
    assert(player_totals(state.party).dom() == state.party.dom());
    lemma_sum_insert(
        player_totals(state.party),
        source,
        player_after(player, hit).total_damage as int,
    );
    assert(enemy_totals(after.targets) == enemy_totals(state.targets).insert(
        target,
        enemy_after(enemy, hit).total_damage as int,
    ));
    assert(enemy_totals(state.targets).dom() == state.targets.dom());
    lemma_sum_insert(
        enemy_totals(state.targets),
        target,
        enemy_after(enemy, hit).total_damage as int,
    );
    assert forall|index: u32| #[trigger] after.party.contains_key(index) implies player_adds_up(
        after.party[index],
    ) by {
        if index != source {
            assert(state.party.contains_key(index));
        }
    }
}

/// Setting a gauge or a number of deaths keeps the totals adding up.
pub proof fn law_setters_add_up(state: DerivedModel, index: u32, sba: Float32, deaths: u32)
    requires
        adds_up(state),
    ensures
        adds_up(with_sba(state, index, sba)),
        adds_up(with_deaths(state, index, deaths)),
{
    if state.party.contains_key(index) {
        let a = with_sba(state, index, sba);
        let b = with_deaths(state, index, deaths);
        assert(player_totals(a.party) == player_totals(state.party));
        assert(player_totals(b.party) == player_totals(state.party));
        assert(player_adds_up(state.party[index]));
        assert(player_adds_up(a.party[index]));
        assert(player_adds_up(b.party[index]));
        assert forall|other: u32| #[trigger] a.party.contains_key(other) implies player_adds_up(
            a.party[other],
        ) by {
            assert(state.party.contains_key(other));
        }
        assert forall|other: u32| #[trigger] b.party.contains_key(other) implies player_adds_up(
            b.party[other],
        ) by {
            assert(state.party.contains_key(other));
        }
    }
}

/// Nothing adds up to nothing.
pub proof fn lemma_empty_adds_up(state: DerivedModel)
    requires
        state.party == Map::<u32, PlayerModel>::empty(),
        state.targets == Map::<u32, EnemyState>::empty(),
        state.total_damage == 0,
    ensures
        adds_up(state),
{
    assert(player_totals(state.party).dom().is_empty());
    assert(enemy_totals(state.targets).dom().is_empty());
}

proof fn lemma_step_adds_up(state: Replayed, rules: ReplayRules, entry: (i64, Message), n: nat)
    requires
        adds_up(state.derived),
        state.derived.bounded(n),
        n < LOG_LIMIT,
        entry.1 matches Message::DamageEvent(event) ==> event.damage >= 0,
    ensures
        adds_up(replay_step(state, rules, entry).derived),
{
    let moved = DerivedModel { end_time: entry.0, ..state.derived };
    assert(adds_up(moved));
    assert(moved.bounded(n));
    match entry.1 {
        Message::DamageEvent(event) => {
            let hit = adjusted(event, rules.players, rules.parents);
            let actor = hit.source.parent_index;
            let full = hit_among(hit, rules.samples);
            law_hits_add_up(moved, entry.0, full, n);
            law_setters_add_up(
                after_damage(moved, entry.0, full),
                actor,
                Float32 { bits: 0 },
                state.deaths[actor],
            );
        },
        Message::OnUpdateSBA(event) => {
            law_setters_add_up(moved, owner_of(rules.parents, event.actor_index), event.sba_value, 0);
        },
        Message::OnAttemptSBA(event) => {
            law_setters_add_up(
                moved,
                owner_of(rules.parents, event.actor_index),
                Float32 { bits: ONE_THOUSAND_BITS },
                0,
            );
        },
        Message::OnPerformSBA(event) => {
            law_setters_add_up(
                moved,
                owner_of(rules.parents, event.actor_index),
                Float32 { bits: 0 },
                0,
            );
        },
        Message::OnDeathEvent(event) => {
            let actor = owner_of(rules.parents, event.actor_index);
            let deaths = deaths_after(state.deaths, actor, event.death_counter, event.is_delta);
            law_setters_add_up(moved, actor, Float32 { bits: 0 }, deaths[actor]);
        },
        _ => {},
    }
}

proof fn lemma_replay_adds_up(start: DerivedModel, rules: ReplayRules, log: Seq<(i64, Message)>)
    requires
        log.len() <= LOG_LIMIT,
        forall|i: int|
            0 <= i < log.len() ==> ((#[trigger] log[i]).1 matches Message::DamageEvent(event)
                ==> event.damage >= 0),
        start.bounded(0),
        adds_up(start),
    ensures
        adds_up(replay(start, rules, log).derived),
    decreases log.len(),
{
    if log.len() > 0 {
        let before = log.drop_last();
        assert forall|i: int| 0 <= i < before.len() implies ((#[trigger] before[i]).1 matches
            Message::DamageEvent(event) ==> event.damage >= 0) by {
            assert(before[i] == log[i]);
        }
        lemma_replay_adds_up(start, rules, before);
        lemma_replay_bounded(start, rules, before);
        lemma_step_adds_up(replay(start, rules, before), rules, log.last(), before.len());
    }
}

/// After parsing again, the damage of the players adds up to the total, and so does the
/// damage to the enemies.
pub proof fn law_reparse_adds_up(parser: ParserModel, gauges: bool, targets: Seq<EnemyType>)
    requires
        log_ok(parser.encounter.raw_event_log),
    ensures
        adds_up(reparsed(parser, gauges, targets).derived_state),
{
    let log = parser.encounter.raw_event_log;
    assert forall|i: int| 0 <= i < log.len() implies ((#[trigger] log[i]).1 matches
        Message::DamageEvent(event) ==> event.damage >= 0) by {
        assert(entry_ok(log[i], first_time(log)));
    }
    let start = replay_start(log, parser.status);
    lemma_empty_adds_up(start);
    lemma_replay_adds_up(start, replay_rules(parser, gauges, targets), log);
}

/// Taking in a hit keeps the totals adding up.
pub proof fn law_live_hits_add_up(parser: ParserModel, now: i64, event: DamageEvent)
    requires
        can_take_damage(parser, now),
        adds_up(parser.derived_state),
    ensures
        adds_up(after_damage_event(parser, now, event).derived_state),
{
    if !ignored(event) {
        let start = engaged(parser, now);
        if parser.status != ParserStatus::InProgress {
            lemma_empty_adds_up(start.derived_state);
        }
        let log = start.encounter.raw_event_log;
        let parents = parents_with(start.id_transformation_parents, observed_parent(event));
        let hit = adjusted(event, start.encounter.player_data, parents);
        lemma_log_grows(log, now, Message::DamageEvent(hit));
        let next = logged(
            ParserModel { id_transformation_parents: parents, ..start },
            now,
            Message::DamageEvent(hit),
        );
        law_reparse_adds_up(next, true, Seq::empty());
        let full = hit_of(hit, Seq::empty());
        law_hits_add_up(start.derived_state, now, full, log.len());
        let actor = hit.source.parent_index;
        law_setters_add_up(
            after_damage(start.derived_state, now, full),
            actor,
            Float32 { bits: 0 },
            start.death_counts[actor],
        );
    }
}

/// Taking in a gauge keeps the totals adding up.
pub proof fn law_live_gauges_add_up(
    parser: ParserModel,
    now: i64,
    message: Message,
    actor_index: u32,
    sba: Float32,
)
    requires
        adds_up(parser.derived_state),
    ensures
        adds_up(after_gauge_event(parser, now, message, actor_index, sba).derived_state),
{
    law_setters_add_up(parser.derived_state, actor_index, sba, 0);
}

/// Taking in a death keeps the totals adding up.
pub proof fn law_live_deaths_add_up(parser: ParserModel, now: i64, event: OnDeathEvent)
    requires
        adds_up(parser.derived_state),
    ensures
        adds_up(after_death_event(parser, now, event).derived_state),
{
    let start = running(parser, now);
    if parser.status != ParserStatus::InProgress {
        lemma_empty_adds_up(start.derived_state);
    }
    let actor = owner_of(start.id_transformation_parents, event.actor_index);
    let deaths = deaths_after(start.death_counts, actor, event.death_counter, event.is_delta);
    law_setters_add_up(start.derived_state, actor, Float32 { bits: 0 }, deaths[actor]);
}

} // verus!
