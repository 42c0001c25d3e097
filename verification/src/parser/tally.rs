//! The state of an encounter as a tally of the hits in its log.

use vstd::prelude::*;

use crate::cap_detection::{cap_known, capped_among};
use crate::constants::{character_of, CharacterType, EnemyType};
use crate::derived::{DerivedModel, EnemyState};
use crate::float32::Float32;
use crate::parser::attribution::{adjusted, parents_in};
use crate::parser::laws::{damage_sum, law_reparse_totals};
use crate::parser::replay::{
    cap_samples, entry_ok, lemma_replay_bounded, log_ok, reparsed, replay, replay_rules,
    replay_start, ReplayRules,
};
use crate::parser::{first_time, ParserModel};
use crate::player_state::{
    hit_among, is_skill_of, new_player, player_after, skill_position, Hit, PlayerModel, SkillState,
    HIT_LIMIT, LOG_LIMIT,
};
use crate::protocol::{ActionType, DamageEvent, Message};

verus! {

/// The hits of a log that are of some kind, oldest first.
pub open spec fn hits_where(log: Seq<(i64, Message)>, kind: spec_fn(DamageEvent) -> bool) -> Seq<
    DamageEvent,
>
    decreases log.len(),
{
    if log.len() == 0 {
        Seq::empty()
    } else {
        let earlier = hits_where(log.drop_last(), kind);
        match log.last().1 {
            Message::DamageEvent(event) => if kind(event) {
                earlier.push(event)
            } else {
                earlier
            },
            _ => earlier,
        }
    }
}

/// The damage of hits, added up.
pub open spec fn damage_of(hits: Seq<DamageEvent>) -> int
    decreases hits.len(),
{
    if hits.len() == 0 {
        0
    } else {
        damage_of(hits.drop_last()) + hits.last().damage
    }
}

/// The stun values of hits, one for one: zero for a hit that tells none.
pub open spec fn stuns_of(hits: Seq<DamageEvent>) -> Seq<Float32> {
    hits.map_values(
        |hit: DamageEvent|
            match hit.stun_value {
                Some(value) => value,
                None => Float32 { bits: 0 },
            },
    )
}

/// The hits on the enemies that are listed; all hits if none is.
pub open spec fn on_target(targets: Seq<EnemyType>) -> spec_fn(DamageEvent) -> bool {
    |hit: DamageEvent|
        targets.len() == 0 || exists|i: int|
            0 <= i < targets.len() && (#[trigger] targets[i]).hash == hit.target.parent_actor_type
}

/// The hits on the listed enemies that count for an actor.
pub open spec fn hits_of(rules: ReplayRules, actor: u32) -> spec_fn(DamageEvent) -> bool {
    |hit: DamageEvent|
        on_target(rules.targets)(hit) && adjusted(hit, rules.players, rules.parents).source.parent_index
            == actor
}

/// The hits that count for an actor and have a cap that can be used.
pub open spec fn known_hits_of(rules: ReplayRules, actor: u32) -> spec_fn(DamageEvent) -> bool {
    |hit: DamageEvent|
        hits_of(rules, actor)(hit) && cap_known(
            adjusted(hit, rules.players, rules.parents).damage_cap,
        )
}

/// The hits that count for an actor and are capped.
pub open spec fn capped_hits_of(rules: ReplayRules, actor: u32) -> spec_fn(DamageEvent) -> bool {
    |hit: DamageEvent|
        hits_of(rules, actor)(hit) && capped_among(
            hit.damage,
            adjusted(hit, rules.players, rules.parents).damage_cap,
            rules.samples,
        )
}

/// The hits of some kind that come from one action of one child of an actor.
pub open spec fn with_skill(
    kind: spec_fn(DamageEvent) -> bool,
    action: ActionType,
    child: CharacterType,
) -> spec_fn(DamageEvent) -> bool {
    |hit: DamageEvent|
        kind(hit) && hit.action_id == action && character_of(hit.source.actor_type) == child
}

/// The hits on the listed enemies that go to one enemy.
pub open spec fn hits_on(rules: ReplayRules, enemy: u32) -> spec_fn(DamageEvent) -> bool {
    |hit: DamageEvent| on_target(rules.targets)(hit) && hit.target.parent_index == enemy
}

/// Whether the totals of an actor are those of its hits.
pub open spec fn player_tallies(
    player: PlayerModel,
    actor: u32,
    rules: ReplayRules,
    log: Seq<(i64, Message)>,
) -> bool {
    let hits = hits_where(log, hits_of(rules, actor));
    &&& player.index == actor
    &&& player.total_damage == damage_of(hits)
    &&& player.stun_values == stuns_of(hits)
    &&& player.cap_known_hits == hits_where(log, known_hits_of(rules, actor)).len()
    &&& player.capped_hits == hits_where(log, capped_hits_of(rules, actor)).len()
    &&& hits.len() > 0 ==> player.character_type == character_of(
        adjusted(hits[0], rules.players, rules.parents).source.parent_actor_type,
    )
}

/// Whether the totals of a skill are those of its hits.
pub open spec fn skill_tallies(
    skill: SkillState,
    actor: u32,
    rules: ReplayRules,
    log: Seq<(i64, Message)>,
) -> bool {
    let hits = hits_where(
        log,
        with_skill(hits_of(rules, actor), skill.action_type, skill.child_character_type),
    );
    &&& skill.hits == hits.len()
    &&& skill.total_damage == damage_of(hits)
    &&& skill.cap_known_hits == hits_where(
        log,
        with_skill(known_hits_of(rules, actor), skill.action_type, skill.child_character_type),
    ).len()
    &&& skill.capped_hits == hits_where(
        log,
        with_skill(capped_hits_of(rules, actor), skill.action_type, skill.child_character_type),
    ).len()
}

/// Whether a player has one skill for each action of each child that it has hits of, in the
/// order of their first hits, and the totals of each are those of its hits.
pub open spec fn skills_tally(
    player: PlayerModel,
    actor: u32,
    rules: ReplayRules,
    log: Seq<(i64, Message)>,
) -> bool {
    let skills = player.skill_breakdown;
    &&& forall|i: int|
        0 <= i < skills.len() ==> skill_tallies(#[trigger] skills[i], actor, rules, log)
    &&& forall|i: int, j: int|
        0 <= i < j < skills.len() ==> !((#[trigger] skills[i]).action_type == (
        #[trigger] skills[j]).action_type && skills[i].child_character_type
            == skills[j].child_character_type)
    &&& forall|action: ActionType, child: CharacterType|
        (#[trigger] hits_where(log, with_skill(hits_of(rules, actor), action, child))).len() > 0
            ==> exists|i: int|
            0 <= i < skills.len() && (#[trigger] skills[i]).action_type == action
                && skills[i].child_character_type == child
}

/// Whether the totals of an enemy are those of the hits on it.
pub open spec fn enemy_tallies(
    enemy: EnemyState,
    index: u32,
    rules: ReplayRules,
    log: Seq<(i64, Message)>,
) -> bool {
    let hits = hits_where(log, hits_on(rules, index));
    &&& enemy.index == index
    &&& enemy.total_damage == damage_of(hits)
    &&& hits.len() > 0 ==> enemy.raw_target_type == hits[0].target.parent_actor_type
        && enemy.target_type.hash == hits[0].target.parent_actor_type
}

pub proof fn lemma_listed(targets: Seq<EnemyType>, hit: DamageEvent)
    ensures
        on_target(targets)(hit) == crate::parser::replay::counts(targets, hit),
{
    let enemy = EnemyType { hash: hit.target.parent_actor_type };
    if targets.contains(enemy) {
        let i = choose|i: int| 0 <= i < targets.len() && targets[i] == enemy;
        assert(targets[i].hash == hit.target.parent_actor_type);
    }
    if exists|i: int|
        0 <= i < targets.len() && (#[trigger] targets[i]).hash == hit.target.parent_actor_type {
        let i = choose|i: int|
            0 <= i < targets.len() && (#[trigger] targets[i]).hash == hit.target.parent_actor_type;
        assert(targets[i] == enemy);
    }
}

/// A hit that counts stays in what it counts for.
proof fn lemma_stuns_push(hits: Seq<DamageEvent>, hit: DamageEvent)
    ensures
        stuns_of(hits.push(hit)) == stuns_of(hits).push(crate::player_state::stun_of(hit)),
        damage_of(hits.push(hit)) == damage_of(hits) + hit.damage,
{
    assert(hits.push(hit).drop_last() == hits);
    assert(stuns_of(hits.push(hit)) =~= stuns_of(hits).push(crate::player_state::stun_of(hit)));
}

proof fn lemma_replay_stuns(start: DerivedModel, rules: ReplayRules, log: Seq<(i64, Message)>)
    requires
        start.stun_values.len() == 0,
    ensures
        replay(start, rules, log).derived.stun_values == stuns_of(
            hits_where(log, on_target(rules.targets)),
        ),
    decreases log.len(),
{
    if log.len() == 0 {
        assert(start.stun_values =~= stuns_of(hits_where(log, on_target(rules.targets))));
    } else {
        let before = log.drop_last();
        lemma_replay_stuns(start, rules, before);
        if let Message::DamageEvent(event) = log.last().1 {
            let hit = adjusted(event, rules.players, rules.parents);
            lemma_listed(rules.targets, event);
            lemma_listed(rules.targets, hit);
            lemma_stuns_push(hits_where(before, on_target(rules.targets)), event);
        }
    }
}

proof fn lemma_fewer(
    log: Seq<(i64, Message)>,
    some: spec_fn(DamageEvent) -> bool,
    more: spec_fn(DamageEvent) -> bool,
)
    requires
        forall|hit: DamageEvent| #[trigger] some(hit) ==> more(hit),
    ensures
        hits_where(log, some).len() <= hits_where(log, more).len() <= log.len(),
    decreases log.len(),
{
    if log.len() > 0 {
        lemma_fewer(log.drop_last(), some, more);
    }
}

/// Of what follows from a hit, what the skills of a player take in.
spec fn full_hit(event: DamageEvent, rules: ReplayRules) -> Hit {
    hit_among(adjusted(event, rules.players, rules.parents), rules.samples)
}

proof fn lemma_skills_step(
    player: PlayerModel,
    actor: u32,
    rules: ReplayRules,
    log: Seq<(i64, Message)>,
    event: DamageEvent,
)
    requires
        log.len() > 0,
        log.len() <= LOG_LIMIT,
        log.last().1 == Message::DamageEvent(event),
        event.damage >= 0,
        hits_of(rules, actor)(event),
        player.bounded((log.len() - 1) as nat),
        skills_tally(player, actor, rules, log.drop_last()),
    ensures
        skills_tally(player_after(player, full_hit(event, rules)), actor, rules, log),
{
    let before = log.drop_last();
    let full = full_hit(event, rules);
    let skills = player.skill_breakdown;
    let after = player_after(player, full).skill_breakdown;
    let child = character_of(event.source.actor_type);
    let action = event.action_id;
    assert(full.event.action_id == action && full.event.source.actor_type
        == event.source.actor_type && full.event.damage == event.damage);
    let position = skill_position(skills, full.event) as int;
    lemma_position_found(skills, full.event);
    let mine = with_skill(hits_of(rules, actor), action, child);
    let known = with_skill(known_hits_of(rules, actor), action, child);
    let capped = with_skill(capped_hits_of(rules, actor), action, child);
    lemma_fewer(before, known, mine);
    lemma_fewer(before, capped, mine);
    lemma_stuns_push(hits_where(before, mine), event);
    if position >= skills.len() {
        assert(hits_where(before, mine).len() == 0) by {
            if hits_where(before, mine).len() > 0 {
                let i = choose|i: int|
                    0 <= i < skills.len() && (#[trigger] skills[i]).action_type == action
                        && skills[i].child_character_type == child;
                assert(is_skill_of(skills[i], full.event));
            }
        }
        assert(hits_where(before, mine) =~= Seq::empty());
    }
    assert forall|i: int| 0 <= i < after.len() implies skill_tallies(
        #[trigger] after[i],
        actor,
        rules,
        log,
    ) by {
        if i < skills.len() {
            assert(skills[i].bounded((log.len() - 1) as nat));
            assert(skill_tallies(skills[i], actor, rules, before));
            if i != position {
                assert(!is_skill_of(skills[i], full.event)) by {
                    if is_skill_of(skills[i], full.event) {
                        assert(is_skill_of(skills[position], full.event));
                        if i < position {
                            assert(!(skills[i].action_type == skills[position].action_type
                                && skills[i].child_character_type
                                == skills[position].child_character_type));
                        } else {
                            assert(!(skills[position].action_type == skills[i].action_type
                                && skills[position].child_character_type
                                == skills[i].child_character_type));
                        }
                    }
                }
            }
        }
    }
    assert forall|i: int, j: int| 0 <= i < j < after.len() implies !((
    #[trigger] after[i]).action_type == (#[trigger] after[j]).action_type
        && after[i].child_character_type == after[j].child_character_type) by {
        if j < skills.len() {
            assert(!(skills[i].action_type == skills[j].action_type
                && skills[i].child_character_type == skills[j].child_character_type));
        } else {
            assert(!is_skill_of(skills[i], full.event));
        }
    }
    assert forall|a: ActionType, c: CharacterType|
        (#[trigger] hits_where(log, with_skill(hits_of(rules, actor), a, c))).len() > 0 implies exists|
        i: int,
    |
        0 <= i < after.len() && (#[trigger] after[i]).action_type == a
            && after[i].child_character_type == c by {
        if a == action && c == child {
            if position < skills.len() {
                assert(after[position].action_type == a);
            } else {
                assert(after[after.len() - 1].action_type == a);
            }
        } else {
            assert(hits_where(before, with_skill(hits_of(rules, actor), a, c)).len() > 0);
            let i = choose|i: int|
                0 <= i < skills.len() && (#[trigger] skills[i]).action_type == a
                    && skills[i].child_character_type == c;
            assert(after[i].action_type == a);
        }
    }
}

/// The skill that a hit belongs to stands where it is found.
pub proof fn lemma_position_found(skills: Seq<SkillState>, event: DamageEvent)
    ensures
        skill_position(skills, event) <= skills.len(),
        skill_position(skills, event) < skills.len() ==> is_skill_of(
            skills[skill_position(skills, event) as int],
            event,
        ),
        forall|k: int|
            0 <= k < skill_position(skills, event) ==> !is_skill_of(#[trigger] skills[k], event),
    decreases skills.len(),
{
    if skills.len() > 0 {
        let rest = skills.drop_last();
        lemma_position_found(rest, event);
        assert forall|k: int| 0 <= k < skill_position(skills, event) implies !is_skill_of(
            #[trigger] skills[k],
            event,
        ) by {
            if k < rest.len() {
                assert(rest[k] == skills[k]);
            }
        }
    }
}

proof fn lemma_replay_player(
    start: DerivedModel,
    rules: ReplayRules,
    log: Seq<(i64, Message)>,
    actor: u32,
)
    requires
        log.len() <= LOG_LIMIT,
        forall|i: int|
            0 <= i < log.len() ==> ((#[trigger] log[i]).1 matches Message::DamageEvent(event)
                ==> event.damage >= 0),
        start.bounded(0),
        start.party == Map::<u32, PlayerModel>::empty(),
    ensures
        ({
            let party = replay(start, rules, log).derived.party;
            &&& party.contains_key(actor) <==> hits_where(log, hits_of(rules, actor)).len() > 0
            &&& party.contains_key(actor) ==> player_tallies(party[actor], actor, rules, log)
                && skills_tally(party[actor], actor, rules, log)
        }),
    decreases log.len(),
{
    if log.len() > 0 {
        let before = log.drop_last();
        assert forall|i: int| 0 <= i < before.len() implies ((#[trigger] before[i]).1 matches
            Message::DamageEvent(event) ==> event.damage >= 0) by {
            assert(before[i] == log[i]);
        }
        lemma_replay_player(start, rules, before, actor);
        lemma_replay_bounded(start, rules, before);
        let state = replay(start, rules, before).derived;
        let after = replay(start, rules, log).derived;
        assert(log[log.len() - 1] == log.last());
        match log.last().1 {
            Message::DamageEvent(event) => {
                let hit = adjusted(event, rules.players, rules.parents);
                lemma_listed(rules.targets, event);
                lemma_listed(rules.targets, hit);
                let full = full_hit(event, rules);
                let mine = hits_of(rules, actor);
                if mine(event) {
                    let player = if state.party.contains_key(actor) {
                        state.party[actor]
                    } else {
                        new_player(full.event)
                    };
                    lemma_fewer(before, known_hits_of(rules, actor), mine);
                    lemma_fewer(before, capped_hits_of(rules, actor), mine);
                    lemma_stuns_push(hits_where(before, mine), event);
                    if !state.party.contains_key(actor) {
                        assert(hits_where(before, mine) =~= Seq::empty());
                        assert forall|a: ActionType, c: CharacterType|
                            (#[trigger] hits_where(before, with_skill(mine, a, c))).len() == 0 by {
                            lemma_fewer(before, with_skill(mine, a, c), mine);
                        }
                        assert(player.stun_values =~= stuns_of(hits_where(before, mine)));
                    }
                    assert(player.bounded(before.len()));
                    assert(player_tallies(player, actor, rules, before));
                    assert(skills_tally(player, actor, rules, before));
                    lemma_skills_step(player, actor, rules, log, event);
                    let counted = player_after(player, full);
                    assert(player.total_damage + event.damage <= u64::MAX);
                    assert(player_tallies(counted, actor, rules, log));
                    assert(skills_tally(after.party[actor], actor, rules, log)) by {
                        assert(after.party[actor].skill_breakdown == counted.skill_breakdown);
                    }
                } else if state.party.contains_key(actor) {
                    lemma_unchanged(state.party[actor], actor, rules, log);
                    assert(after.party[actor] == state.party[actor]);
                }
            },
            _ => {
                if state.party.contains_key(actor) {
                    lemma_unchanged(state.party[actor], actor, rules, log);
                    assert(after.party[actor].skill_breakdown
                        == state.party[actor].skill_breakdown);
                    assert(skills_tally(after.party[actor], actor, rules, log));
                }
            },
        }
    }
}

/// A report that is no hit of an actor leaves its tallies as they are.
proof fn lemma_unchanged(
    player: PlayerModel,
    actor: u32,
    rules: ReplayRules,
    log: Seq<(i64, Message)>,
)
    requires
        log.len() > 0,
        log.last().1 matches Message::DamageEvent(event) ==> !hits_of(rules, actor)(event),
        player_tallies(player, actor, rules, log.drop_last()),
        skills_tally(player, actor, rules, log.drop_last()),
    ensures
        player_tallies(player, actor, rules, log),
        skills_tally(player, actor, rules, log),
{
    let before = log.drop_last();
    let skills = player.skill_breakdown;
    assert forall|i: int| 0 <= i < skills.len() implies skill_tallies(
        #[trigger] skills[i],
        actor,
        rules,
        log,
    ) by {
        assert(skill_tallies(skills[i], actor, rules, before));
    }
    assert forall|a: ActionType, c: CharacterType|
        (#[trigger] hits_where(log, with_skill(hits_of(rules, actor), a, c))).len() > 0 implies exists|
        i: int,
    |
        0 <= i < skills.len() && (#[trigger] skills[i]).action_type == a
            && skills[i].child_character_type == c by {
        assert(hits_where(before, with_skill(hits_of(rules, actor), a, c)).len() > 0);
    }
}

proof fn lemma_replay_enemy(
    start: DerivedModel,
    rules: ReplayRules,
    log: Seq<(i64, Message)>,
    enemy: u32,
)
    requires
        log.len() <= LOG_LIMIT,
        forall|i: int|
            0 <= i < log.len() ==> ((#[trigger] log[i]).1 matches Message::DamageEvent(event)
                ==> event.damage >= 0),
        start.bounded(0),
        start.targets == Map::<u32, EnemyState>::empty(),
    ensures
        ({
            let targets = replay(start, rules, log).derived.targets;
            &&& targets.contains_key(enemy) <==> hits_where(log, hits_on(rules, enemy)).len() > 0
            &&& targets.contains_key(enemy) ==> enemy_tallies(targets[enemy], enemy, rules, log)
        }),
    decreases log.len(),
{
    if log.len() > 0 {
        let before = log.drop_last();
        assert forall|i: int| 0 <= i < before.len() implies ((#[trigger] before[i]).1 matches
            Message::DamageEvent(event) ==> event.damage >= 0) by {
            assert(before[i] == log[i]);
        }
        lemma_replay_enemy(start, rules, before, enemy);
        lemma_replay_bounded(start, rules, before);
        let state = replay(start, rules, before).derived;
        assert(log[log.len() - 1] == log.last());
        if let Message::DamageEvent(event) = log.last().1 {
            let hit = adjusted(event, rules.players, rules.parents);
            lemma_listed(rules.targets, event);
            lemma_listed(rules.targets, hit);
            assert(hit.target == event.target && hit.damage == event.damage);
            let mine = hits_on(rules, enemy);
            if mine(event) {
                lemma_stuns_push(hits_where(before, mine), event);
                if state.targets.contains_key(enemy) {
                    assert(state.targets[enemy].total_damage <= before.len() * HIT_LIMIT);
                    assert(state.targets[enemy].total_damage + event.damage <= u64::MAX);
                } else {
                    assert(hits_where(before, mine) =~= Seq::empty());
                }
            }
        }
    }
}

/// The time of the last hit of a log on the enemies that are listed, if there is one.
pub open spec fn last_time_on(log: Seq<(i64, Message)>, targets: Seq<EnemyType>) -> Option<i64>
    decreases log.len(),
{
    if log.len() == 0 {
        None
    } else if log.last().1 matches Message::DamageEvent(event) && on_target(targets)(event) {
        Some(log.last().0)
    } else {
        last_time_on(log.drop_last(), targets)
    }
}

proof fn lemma_replay_rate(start: DerivedModel, rules: ReplayRules, log: Seq<(i64, Message)>)
    requires
        start.rate_millis == 0,
    ensures
        replay(start, rules, log).derived.start_time == start.start_time,
        replay(start, rules, log).derived.rate_millis == match last_time_on(log, rules.targets) {
            Some(time) => if time - start.start_time > 1 {
                (time - start.start_time) as i64
            } else {
                1
            },
            None => 0,
        },
    decreases log.len(),
{
    if log.len() > 0 {
        lemma_replay_rate(start, rules, log.drop_last());
        if let Message::DamageEvent(event) = log.last().1 {
            let hit = adjusted(event, rules.players, rules.parents);
            lemma_listed(rules.targets, event);
            lemma_listed(rules.targets, hit);
        }
    }
}

/// After parsing again, the state is the tally of the hits in the log on the enemies that are
/// listed: the stun of the encounter; for each actor that has hits, and no other, its damage,
/// stun, caps and skills; for each enemy that was hit, and no other, the damage to it. Damage
/// and stun per second refer to the time from the start to the last of those hits.
pub proof fn law_reparse_tallies(
    parser: ParserModel,
    gauges: bool,
    targets: Seq<EnemyType>,
    actor: u32,
    enemy: u32,
)
    requires
        log_ok(parser.encounter.raw_event_log),
    ensures
        ({
            let log = parser.encounter.raw_event_log;
            let players = parser.encounter.player_data;
            let parents = parents_in(log);
            let rules = ReplayRules {
                players,
                parents,
                samples: cap_samples(log, players, parents),
                gauges,
                targets,
            };
            let state = reparsed(parser, gauges, targets).derived_state;
            let hits = hits_where(log, on_target(targets));
            &&& state.stun_values == stuns_of(hits)
            &&& state.total_damage == damage_of(hits)
            &&& state.rate_millis == match last_time_on(log, targets) {
                Some(time) => if time - first_time(log) > 1 {
                    (time - first_time(log)) as i64
                } else {
                    1
                },
                None => 0,
            }
            &&& state.party.contains_key(actor) <==> hits_where(log, hits_of(rules, actor)).len() > 0
            &&& state.party.contains_key(actor) ==> player_tallies(
                state.party[actor],
                actor,
                rules,
                log,
            ) && skills_tally(state.party[actor], actor, rules, log)
            &&& state.targets.contains_key(enemy) <==> hits_where(log, hits_on(rules, enemy)).len()
                > 0
            &&& state.targets.contains_key(enemy) ==> enemy_tallies(
                state.targets[enemy],
                enemy,
                rules,
                log,
            )
        }),
{
    let log = parser.encounter.raw_event_log;
    let start = replay_start(log, parser.status);
    let rules = replay_rules(parser, gauges, targets);
    assert forall|i: int| 0 <= i < log.len() implies ((#[trigger] log[i]).1 matches
        Message::DamageEvent(event) ==> event.damage >= 0) by {
        assert(entry_ok(log[i], first_time(log)));
    }
    lemma_replay_stuns(start, rules, log);
    lemma_replay_rate(start, rules, log);
    lemma_replay_player(start, rules, log, actor);
    lemma_replay_enemy(start, rules, log, enemy);
    law_reparse_totals(parser, gauges, targets);
    lemma_damage_sum(log, targets);
}

proof fn lemma_damage_sum(log: Seq<(i64, Message)>, targets: Seq<EnemyType>)
    ensures
        damage_sum(log, targets) == damage_of(hits_where(log, on_target(targets))),
    decreases log.len(),
{
    if log.len() > 0 {
        let before = log.drop_last();
        lemma_damage_sum(before, targets);
        if let Message::DamageEvent(event) = log.last().1 {
            lemma_listed(targets, event);
            lemma_stuns_push(hits_where(before, on_target(targets)), event);
        }
    }
}

} // verus!
