//! The state of an encounter after some of its events.

use std::collections::HashMap;
use vstd::prelude::*;

use crate::clock;
use crate::clock::{MAX_UTC_MILLIS, MIN_UTC_MILLIS};
use crate::constants::EnemyType;
use crate::float32::Float32;
use crate::keys::keys_of;
use crate::player_state::{
    lemma_player_bounded, lemma_player_bounded_more, new_player, player_after, summed,
    AdjustedDamageInstance, Hit, PlayerModel, PlayerState, HIT_LIMIT, LOG_LIMIT,
};
use crate::protocol::DamageEvent;

verus! {

/// What the parser is doing.
#[derive(Clone, Copy, Debug, PartialEq, Eq, Structural)]
pub enum ParserStatus {
    Waiting,
    InProgress,
    Stopped,
}

/// Running totals of one enemy.
#[derive(Clone, Copy, Debug, PartialEq, Eq, Structural)]
pub struct EnemyState {
    pub index: u32,
    pub target_type: EnemyType,
    pub raw_target_type: u32,
    pub total_damage: u64,
}

/// The enemy that a hit brings into the encounter.
pub open spec fn new_enemy(event: DamageEvent) -> EnemyState {
    EnemyState {
        index: event.target.parent_index,
        target_type: EnemyType { hash: event.target.parent_actor_type },
        raw_target_type: event.target.parent_actor_type,
        total_damage: 0,
    }
}

/// An enemy after one more hit.
pub open spec fn enemy_after(enemy: EnemyState, hit: Hit) -> EnemyState {
    EnemyState { total_damage: summed(enemy.total_damage, hit.event.damage), ..enemy }
}

impl EnemyState {
    /// Takes in one more hit.
    pub fn update_from_damage_event(&mut self, damage_instance: &AdjustedDamageInstance)
        requires
            old(self).total_damage <= (LOG_LIMIT - 1) * HIT_LIMIT,
            damage_instance.event.damage >= 0,
        ensures
            *final(self) == enemy_after(*old(self), damage_instance.hit()),
    {
        self.total_damage = self.total_damage + damage_instance.event.damage as u64;
    }
}

/// The start of the encounter lies outside the calendar.
#[derive(Clone, Copy, Debug, PartialEq, Eq, Structural)]
pub struct StartTimeOutOfRange;

/// What has been worked out of an encounter, for display.
#[derive(Debug)]
pub struct DerivedEncounterState {
    /// Time of the first hit.
    pub start_time: i64,
    /// Time of the last hit so far.
    pub end_time: i64,
    /// The total damage done in the encounter.
    pub total_damage: u64,
    /// How long the encounter had lasted at the last hit; zero before the first.
    /// Damage and stun per second refer to it.
    pub rate_millis: i64,
    /// The stun values of the hits, oldest first.
    pub stun_values: Vec<Float32>,
    /// Status of the parser.
    pub status: ParserStatus,
    /// Totals by player.
    pub party: HashMap<u32, PlayerState>,
    /// Totals by enemy.
    pub targets: HashMap<u32, EnemyState>,
}

/// What a `DerivedEncounterState` says.
#[verifier::ext_equal]
pub struct DerivedModel {
    pub start_time: i64,
    pub end_time: i64,
    pub total_damage: u64,
    pub rate_millis: i64,
    pub stun_values: Seq<Float32>,
    pub status: ParserStatus,
    pub party: Map<u32, PlayerModel>,
    pub targets: Map<u32, EnemyState>,
}

/// What a party says.
pub open spec fn party_model(party: Map<u32, PlayerState>) -> Map<u32, PlayerModel> {
    party.map_values(|player: PlayerState| player@)
}

impl View for DerivedEncounterState {
    type V = DerivedModel;

    open spec fn view(&self) -> DerivedModel {
        DerivedModel {
            start_time: self.start_time,
            end_time: self.end_time,
            total_damage: self.total_damage,
            rate_millis: self.rate_millis,
            stun_values: self.stun_values@,
            status: self.status,
            party: party_model(self.party@),
            targets: self.targets@,
        }
    }
}

/// The state before any event.
pub open spec fn empty_derived() -> DerivedModel {
    DerivedModel {
        start_time: 0,
        end_time: 0,
        total_damage: 0,
        rate_millis: 0,
        stun_values: Seq::empty(),
        status: ParserStatus::Waiting,
        party: Map::empty(),
        targets: Map::empty(),
    }
}

/// How long something lasted, in milliseconds, but at least one.
pub open spec fn lasting(start: i64, end: i64) -> i64 {
    if end - start > 1 {
        (end - start) as i64
    } else {
        1
    }
}

/// Whether the time between two points can be told.
pub open spec fn comparable(start: i64, end: i64) -> bool {
    i64::MIN <= end - start <= i64::MAX
}

/// The state after a hit at time `now`.
pub open spec fn after_damage(state: DerivedModel, now: i64, hit: Hit) -> DerivedModel {
    let source = hit.event.source.parent_index;
    let target = hit.event.target.parent_index;
    let player = if state.party.contains_key(source) {
        state.party[source]
    } else {
        new_player(hit.event)
    };
    let enemy = if state.targets.contains_key(target) {
        state.targets[target]
    } else {
        new_enemy(hit.event)
    };
    DerivedModel {
        end_time: now,
        total_damage: summed(state.total_damage, hit.event.damage),
        rate_millis: lasting(state.start_time, now),
        stun_values: state.stun_values.push(hit.stun_damage),
        party: state.party.insert(source, player_after(player, hit)),
        targets: state.targets.insert(target, enemy_after(enemy, hit)),
        ..state
    }
}

/// The state after the gauge of player `index` was set, if there is such a player.
pub open spec fn with_sba(state: DerivedModel, index: u32, sba: Float32) -> DerivedModel {
    if state.party.contains_key(index) {
        DerivedModel {
            party: state.party.insert(index, PlayerModel { sba, ..state.party[index] }),
            ..state
        }
    } else {
        state
    }
}

/// The state after the deaths of player `index` were set, if there is such a player.
pub open spec fn with_deaths(state: DerivedModel, index: u32, deaths: u32) -> DerivedModel {
    if state.party.contains_key(index) {
        DerivedModel {
            party: state.party.insert(index, PlayerModel { deaths, ..state.party[index] }),
            ..state
        }
    } else {
        state
    }
}

impl DerivedModel {
    /// What `n` hits at most add up to.
    pub open spec fn bounded(self, n: nat) -> bool {
        &&& self.total_damage <= n * HIT_LIMIT
        &&& forall|index: u32| #[trigger]
            self.party.contains_key(index) ==> self.party[index].bounded(n)
        &&& forall|index: u32| #[trigger]
            self.targets.contains_key(index) ==> self.targets[index].total_damage <= n * HIT_LIMIT
    }
}

/// `index` is the enemy that took the most damage, the one with the smallest index if
/// there are several.
pub open spec fn is_primary_target(targets: Map<u32, EnemyState>, index: u32) -> bool {
    &&& targets.contains_key(index)
    &&& forall|other: u32| #[trigger]
        targets.contains_key(other) ==> {
            ||| targets[other].total_damage < targets[index].total_damage
            ||| targets[other].total_damage == targets[index].total_damage && index <= other
        }
}

/// One hit more raises the bound by one.
pub proof fn lemma_derived_bounded(state: DerivedModel, now: i64, hit: Hit, n: nat)
    requires
        state.bounded(n),
        n < LOG_LIMIT,
        hit.event.damage >= 0,
    ensures
        after_damage(state, now, hit).bounded(n + 1),
{
    let after = after_damage(state, now, hit);
    let source = hit.event.source.parent_index;
    assert forall|index: u32| #[trigger] after.party.contains_key(index) implies after.party[index].bounded(
        n + 1,
    ) by {
        if index == source {
            if state.party.contains_key(source) {
                lemma_player_bounded(state.party[source], hit, n);
            } else {
                lemma_player_bounded(new_player(hit.event), hit, n);
            }
        } else {
            assert(state.party.contains_key(index));
            lemma_player_bounded_more(state.party[index], n, n + 1);
        }
    }
    assert forall|index: u32| #[trigger]
        after.targets.contains_key(index) implies after.targets[index].total_damage <= (n + 1)
        * HIT_LIMIT by {
        if index != hit.event.target.parent_index {
            assert(state.targets.contains_key(index));
        }
    }
}

/// A bound holds of more hits, too.
pub proof fn lemma_derived_bounded_more(state: DerivedModel, n: nat, m: nat)
    requires
        state.bounded(n),
        n <= m,
    ensures
        state.bounded(m),
{
    assert forall|index: u32| #[trigger] state.party.contains_key(index) implies state.party[index].bounded(
        m,
    ) by {
        lemma_player_bounded_more(state.party[index], n, m);
    }
}

/// Setting a gauge or a number of deaths keeps a bound.
pub proof fn lemma_setters_bounded(state: DerivedModel, index: u32, sba: Float32, deaths: u32, n: nat)
    requires
        state.bounded(n),
    ensures
        with_sba(state, index, sba).bounded(n),
        with_deaths(state, index, deaths).bounded(n),
{
    if state.party.contains_key(index) {
        assert(state.party[index].bounded(n));
        let a = PlayerModel { sba, ..state.party[index] };
        let b = PlayerModel { deaths, ..state.party[index] };
        assert(a.skill_breakdown == state.party[index].skill_breakdown);
        assert(a.bounded(n));
        assert(b.bounded(n));
        assert forall|other: u32| #[trigger]
            with_sba(state, index, sba).party.contains_key(other) implies with_sba(
            state,
            index,
            sba,
        ).party[other].bounded(n) by {
            assert(state.party.contains_key(other));
        }
        assert forall|other: u32| #[trigger]
            with_deaths(state, index, deaths).party.contains_key(other) implies with_deaths(
            state,
            index,
            deaths,
        ).party[other].bounded(n) by {
            assert(state.party.contains_key(other));
        }
    }
}

impl Default for DerivedEncounterState {
    fn default() -> (state: Self)
        ensures
            state@ == empty_derived(),
    {
        let state = DerivedEncounterState {
            start_time: 0,
            end_time: 0,
            total_damage: 0,
            rate_millis: 0,
            stun_values: Vec::new(),
            status: ParserStatus::Waiting,
            party: HashMap::new(),
            targets: HashMap::new(),
        };
        assert(party_model(state.party@) == Map::<u32, PlayerModel>::empty());
        state
    }
}

impl DerivedEncounterState {
    /// How long the encounter lasted so far, in milliseconds, but at least one.
    pub fn duration(&self) -> (millis: i64)
        requires
            comparable(self.start_time, self.end_time),
        ensures
            millis == lasting(self.start_time, self.end_time),
    {
        let elapsed: i64 = self.end_time - self.start_time;
        if elapsed > 1 {
            elapsed
        } else {
            1
        }
    }

    /// The start of the encounter in milliseconds since 1970, if it has a calendar date.
    pub fn utc_start_time(&self) -> (time: Result<i64, StartTimeOutOfRange>)
        ensures
            time == (if MIN_UTC_MILLIS <= self.start_time <= MAX_UTC_MILLIS {
                Ok::<i64, StartTimeOutOfRange>(self.start_time)
            } else {
                Err(StartTimeOutOfRange)
            }),
    {
        match clock::calendar_millis(self.start_time) {
            Some(time) => Ok(time),
            None => Err(StartTimeOutOfRange),
        }
    }

    /// Starts the encounter at time `now`.
    pub fn start(&mut self, now: i64)
        ensures
            final(self)@ == (DerivedModel { start_time: now, end_time: now, ..old(self)@ }),
    {
        self.start_time = now;
        self.end_time = now;
    }

    /// The enemy that took the most damage.
    pub fn get_primary_target(&self) -> (target: Option<EnemyState>)
        ensures
            match target {
                Some(enemy) => exists|index: u32| #[trigger]
                    is_primary_target(self@.targets, index) && enemy == self@.targets[index],
                None => self@.targets.dom().is_empty(),
            },
    {
        broadcast use vstd::std_specs::hash::group_hash_axioms;

        let indices: Vec<u32> = keys_of(&self.targets);
        let mut best: Option<(u32, EnemyState)> = None;
        let mut i: usize = 0;
        while i < indices.len()
            invariant
                i <= indices.len(),
                i > 0 ==> best is Some,
                forall|index: u32|
                    indices@.contains(index) <==> #[trigger] self.targets@.contains_key(index),
                best matches Some((index, enemy)) ==> self.targets@.contains_key(index) && enemy
                    == self.targets@[index] && forall|k: int|
                    0 <= k < i ==> {
                        ||| self.targets@[#[trigger] indices@[k]].total_damage < enemy.total_damage
                        ||| self.targets@[indices@[k]].total_damage == enemy.total_damage && index
                            <= indices@[k]
                    },
            decreases indices.len() - i,
        {
            let index: u32 = indices[i];
            assert(indices@.contains(index));
            if let Some(enemy) = self.targets.get(&index) {
                let better: bool = match &best {
                    Some((first, top)) => enemy.total_damage > top.total_damage
                        || enemy.total_damage == top.total_damage && index < *first,
                    None => true,
                };
                if better {
                    best = Some((index, *enemy));
                }
            }
            i = i + 1;
        }
        match best {
            Some((index, enemy)) => {
                assert forall|other: u32| #[trigger] self@.targets.contains_key(other) implies {
                    ||| self@.targets[other].total_damage < self@.targets[index].total_damage
                    ||| self@.targets[other].total_damage == self@.targets[index].total_damage
                        && index <= other
                } by {
                    assert(indices@.contains(other));
                }
                assert(is_primary_target(self@.targets, index));
                Some(enemy)
            },
            None => {
                assert forall|index: u32| !self@.targets.dom().contains(index) by {
                    assert(indices@.contains(index) <==> self.targets@.contains_key(index));
                }
                None
            },
        }
    }

    /// Takes in one more hit, which came at time `now`.
    pub fn process_damage_event(&mut self, now: i64, damage_instance: &AdjustedDamageInstance)
        requires
            old(self)@.bounded((LOG_LIMIT - 1) as nat),
            comparable(old(self).start_time, now),
            damage_instance.event.damage >= 0,
        ensures
            final(self)@ == after_damage(old(self)@, now, damage_instance.hit()),
    {
        broadcast use vstd::std_specs::hash::group_hash_axioms;

        self.end_time = now;
        self.total_damage = self.total_damage + damage_instance.event.damage as u64;
        self.rate_millis = self.duration();
        self.stun_values.push(damage_instance.stun_damage);

        let source: u32 = damage_instance.event.source.parent_index;
        assert(self@.party.contains_key(source) ==> self@.party[source].bounded(
            (LOG_LIMIT - 1) as nat,
        ));
        let mut player = match self.party.remove(&source) {
            Some(player) => player,
            None => PlayerState::from_damage_event(damage_instance.event),
        };
        player.update_from_damage_event(damage_instance);
        let ghost updated = player@;
        self.party.insert(source, player);
        assert(party_model(self.party@) == party_model(old(self).party@).insert(source, updated));

        let target: u32 = damage_instance.event.target.parent_index;
        assert(self.targets@.contains_key(target) ==> self.targets@[target].total_damage <= (LOG_LIMIT
            - 1) * HIT_LIMIT);
        let mut enemy = match self.targets.get(&target) {
            Some(enemy) => *enemy,
            None => EnemyState {
                index: target,
                target_type: EnemyType::from_hash(damage_instance.event.target.parent_actor_type),
                raw_target_type: damage_instance.event.target.parent_actor_type,
                total_damage: 0,
            },
        };
        enemy.update_from_damage_event(damage_instance);
        self.targets.insert(target, enemy);
    }

    /// Sets the gauge of player `index`, if there is such a player.
    pub fn set_sba(&mut self, index: u32, sba: Float32)
        ensures
            final(self)@ == with_sba(old(self)@, index, sba),
    {
        broadcast use vstd::std_specs::hash::group_hash_axioms;

        if let Some(mut player) = self.party.remove(&index) {
            player.set_sba(sba);
            let ghost updated = player@;
            self.party.insert(index, player);
            assert(party_model(self.party@) == party_model(old(self).party@).insert(index, updated));
        } else {
            assert(party_model(self.party@) == party_model(old(self).party@));
        }
    }

    /// Sets the deaths of player `index`, if there is such a player.
    pub fn set_deaths(&mut self, index: u32, deaths: u32)
        ensures
            final(self)@ == with_deaths(old(self)@, index, deaths),
    {
        broadcast use vstd::std_specs::hash::group_hash_axioms;

        if let Some(mut player) = self.party.remove(&index) {
            player.set_deaths(deaths);
            let ghost updated = player@;
            self.party.insert(index, player);
            assert(party_model(self.party@) == party_model(old(self).party@).insert(index, updated));
        } else {
            assert(party_model(self.party@) == party_model(old(self).party@));
        }
    }
}

} // verus!
