//! Whose hit it is: transformations, owners, and whose damage caps can be trusted.

use std::collections::HashMap;
use vstd::prelude::*;

use crate::constants::{CharacterType, ID_ACTOR_TYPE, ID_TRANSFORMATION_ACTOR_TYPE};
use crate::derived::{with_deaths, DerivedEncounterState};
use crate::encounter::{slot_model, slots_model, PlayerData, PlayerDataModel, PARTY_SIZE};
use crate::protocol::{Actor, DamageEvent, Message};

verus! {

/// What a hit shows of a transformation of Id: the index of the transformation, and
/// that of the Id it belongs to.
pub open spec fn observed_parent(event: DamageEvent) -> Option<(u32, u32)> {
    if event.source.actor_type == ID_TRANSFORMATION_ACTOR_TYPE && event.source.parent_actor_type
        == ID_ACTOR_TYPE {
        Some((event.source.index, event.source.parent_index))
    } else {
        None
    }
}

/// What a report shows of a transformation of Id.
pub open spec fn observed_in(message: Message) -> Option<(u32, u32)> {
    match message {
        Message::DamageEvent(event) => observed_parent(event),
        _ => None,
    }
}

/// The owners of transformations after one more observation: the first one stands.
pub open spec fn parents_with(parents: Map<u32, u32>, observed: Option<(u32, u32)>) -> Map<u32, u32> {
    match observed {
        Some((transformation, parent)) => if parents.contains_key(transformation) {
            parents
        } else {
            parents.insert(transformation, parent)
        },
        None => parents,
    }
}

/// The owners of transformations that a log shows.
pub open spec fn parents_in(log: Seq<(i64, Message)>) -> Map<u32, u32>
    decreases log.len(),
{
    if log.len() == 0 {
        Map::empty()
    } else {
        parents_with(parents_in(log.drop_last()), observed_in(log.last().1))
    }
}

/// The actor that `index` stands for: the owner, for a transformation with a known one.
pub open spec fn owner_of(parents: Map<u32, u32>, index: u32) -> u32 {
    if parents.contains_key(index) {
        parents[index]
    } else {
        index
    }
}

/// Whether a party slot holds Id.
pub open spec fn is_id(slot: Option<PlayerDataModel>) -> bool {
    slot matches Some(player) && player.character_type == CharacterType::Pl1900
}

/// Slot `i` holds the only Id of the party.
pub open spec fn is_only_id(players: Seq<Option<PlayerDataModel>>, i: int) -> bool {
    0 <= i < players.len() && is_id(players[i]) && forall|k: int|
        0 <= k < players.len() && is_id(#[trigger] players[k]) ==> k == i
}

/// A hit, put to the account of Id number `parent`.
pub open spec fn owned_by_id(event: DamageEvent, parent: u32) -> DamageEvent {
    DamageEvent {
        source: Actor {
            parent_actor_type: ID_ACTOR_TYPE,
            parent_index: parent,
            ..event.source
        },
        ..event
    }
}

/// A hit, put to the account it belongs to. A hit of a transformation goes to its
/// known owner; failing that, to the owner it names; failing that, to the only Id in
/// the party. Where nothing tells, it stays as it is.
pub open spec fn resolved(
    event: DamageEvent,
    players: Seq<Option<PlayerDataModel>>,
    parents: Map<u32, u32>,
) -> DamageEvent {
    if event.source.actor_type != ID_TRANSFORMATION_ACTOR_TYPE {
        event
    } else if parents.contains_key(event.source.index) {
        owned_by_id(event, parents[event.source.index])
    } else if event.source.parent_actor_type == ID_ACTOR_TYPE {
        event
    } else if exists|i: int| is_only_id(players, i) {
        let i = choose|i: int| is_only_id(players, i);
        owned_by_id(event, players[i]->0.actor_index)
    } else {
        event
    }
}

/// Whether the damage caps reported for an actor can be trusted: only those of the
/// local player (in the first slot) and of players the machine controls.
pub open spec fn cap_enabled(players: Seq<Option<PlayerDataModel>>, actor_index: u32) -> bool {
    exists|i: int|
        0 <= i < players.len() && is_player(#[trigger] players[i], actor_index) && (i == 0
            || !players[i]->0.is_online)
}

/// A hit without a damage cap that cannot be trusted.
pub open spec fn restricted(event: DamageEvent, players: Seq<Option<PlayerDataModel>>) -> DamageEvent {
    if cap_enabled(players, event.source.parent_index) {
        event
    } else {
        DamageEvent { damage_cap: None, ..event }
    }
}

/// A hit as it counts.
pub open spec fn adjusted(
    event: DamageEvent,
    players: Seq<Option<PlayerDataModel>>,
    parents: Map<u32, u32>,
) -> DamageEvent {
    restricted(resolved(event, players, parents), players)
}

/// The first slot with player `actor_index`; the number of slots if there is none.
pub open spec fn player_position(players: Seq<Option<PlayerDataModel>>, actor_index: u32) -> nat
    decreases players.len(),
{
    if players.len() == 0 {
        0
    } else {
        let before = player_position(players.drop_last(), actor_index);
        if before < players.len() - 1 || is_player(players.last(), actor_index) {
            before
        } else {
            players.len()
        }
    }
}

/// Whether a party slot holds player `actor_index`.
pub open spec fn is_player(slot: Option<PlayerDataModel>, actor_index: u32) -> bool {
    slot matches Some(player) && player.actor_index == actor_index
}

pub proof fn lemma_player_position(players: Seq<Option<PlayerDataModel>>, actor_index: u32, i: nat)
    requires
        i <= players.len(),
        forall|k: int| 0 <= k < i ==> !is_player(#[trigger] players[k], actor_index),
        i < players.len() ==> is_player(players[i as int], actor_index),
    ensures
        player_position(players, actor_index) == i,
    decreases players.len(),
{
    if players.len() > 0 {
        let rest = players.drop_last();
        if i < rest.len() {
            lemma_player_position(rest, actor_index, i);
        } else {
            lemma_player_position(rest, actor_index, rest.len());
        }
    }
}

/// What a hit shows of a transformation of Id.
pub fn observed_id_transformation_parent(event: &DamageEvent) -> (observed: Option<(u32, u32)>)
    ensures
        observed == observed_parent(*event),
{
    if event.source.actor_type == ID_TRANSFORMATION_ACTOR_TYPE && event.source.parent_actor_type
        == ID_ACTOR_TYPE {
        Some((event.source.index, event.source.parent_index))
    } else {
        None
    }
}

/// The owners of transformations that a log shows.
pub fn collect_id_transformation_parents(events: &[(i64, Message)]) -> (parents: HashMap<u32, u32>)
    ensures
        parents@ == parents_in(events@),
{
    broadcast use vstd::std_specs::hash::group_hash_axioms;

    let mut parents: HashMap<u32, u32> = HashMap::new();
    let mut i: usize = 0;
    assert(events@.take(0) == Seq::<(i64, Message)>::empty());
    while i < events.len()
        invariant
            i <= events.len(),
            parents@ == parents_in(events@.take(i as int)),
        decreases events.len() - i,
    {
        assert(events@.take(i + 1).drop_last() == events@.take(i as int));
        if let Message::DamageEvent(event) = &events[i].1 {
            if let Some((transformation_index, parent_index)) = observed_id_transformation_parent(
                event,
            ) {
                if !parents.contains_key(&transformation_index) {
                    parents.insert(transformation_index, parent_index);
                }
            }
        }
        i = i + 1;
    }
    assert(events@.take(i as int) == events@);
    parents
}

/// The actor that `index` stands for.
pub fn resolve_owner(parents: &HashMap<u32, u32>, index: u32) -> (owner: u32)
    ensures
        owner == owner_of(parents@, index),
{
    broadcast use vstd::std_specs::hash::group_hash_axioms;

    match parents.get(&index) {
        Some(parent) => *parent,
        None => index,
    }
}

/// A hit, put to the account it belongs to.
pub fn resolve_id_transformation_parent(
    event: &DamageEvent,
    players: &[Option<PlayerData>; PARTY_SIZE],
    known_parents: &HashMap<u32, u32>,
) -> (hit: DamageEvent)
    ensures
        hit == resolved(*event, slots_model(players@), known_parents@),
{
    broadcast use vstd::std_specs::hash::group_hash_axioms;

    if event.source.actor_type != ID_TRANSFORMATION_ACTOR_TYPE {
        return *event;
    }
    let mut hit: DamageEvent = *event;
    if let Some(parent_index) = known_parents.get(&event.source.index) {
        hit.source.parent_actor_type = ID_ACTOR_TYPE;
        hit.source.parent_index = *parent_index;
        return hit;
    }
    if event.source.parent_actor_type == ID_ACTOR_TYPE {
        return hit;
    }
    let ghost party = slots_model(players@);
    let mut id: Option<usize> = None;
    let mut i: usize = 0;
    while i < PARTY_SIZE
        invariant
            i <= PARTY_SIZE,
            party == slots_model(players@),
            party.len() == PARTY_SIZE,
            hit == *event,
            event.source.actor_type == ID_TRANSFORMATION_ACTOR_TYPE,
            event.source.parent_actor_type != ID_ACTOR_TYPE,
            !known_parents@.contains_key(event.source.index),
            match id {
                Some(at) => at < i && is_id(party[at as int]) && forall|k: int|
                    0 <= k < i && is_id(#[trigger] party[k]) ==> k == at,
                None => forall|k: int| 0 <= k < i ==> !is_id(#[trigger] party[k]),
            },
        decreases PARTY_SIZE - i,
    {
        assert(party[i as int] == slot_model(players@[i as int]));
        if let Some(player) = &players[i] {
            if player.character_type == CharacterType::Pl1900 {
                if let Some(at) = id {
                    assert(is_id(party[at as int]) && is_id(party[i as int]));
                    assert(forall|k: int| !is_only_id(party, k));
                    return hit;
                }
                id = Some(i);
            }
        }
        i = i + 1;
    }
    if let Some(at) = id {
        assert(is_only_id(party, at as int));
        assert(party[at as int] == slot_model(players@[at as int]));
        if let Some(player) = &players[at] {
            hit.source.parent_actor_type = ID_ACTOR_TYPE;
            hit.source.parent_index = player.actor_index;
        }
    }
    hit
}

/// Whether the damage caps reported for an actor can be trusted.
pub fn damage_cap_enabled_for_actor(
    players: &[Option<PlayerData>; PARTY_SIZE],
    actor_index: u32,
) -> (enabled: bool)
    ensures
        enabled == cap_enabled(slots_model(players@), actor_index),
{
    let ghost party = slots_model(players@);
    let mut i: usize = 0;
    while i < PARTY_SIZE
        invariant
            i <= PARTY_SIZE,
            party == slots_model(players@),
            party.len() == PARTY_SIZE,
            forall|k: int|
                0 <= k < i ==> !(is_player(#[trigger] party[k], actor_index) && (k == 0
                    || !party[k]->0.is_online)),
        decreases PARTY_SIZE - i,
    {
        assert(party[i as int] == slot_model(players@[i as int]));
        if let Some(player) = &players[i] {
            if player.actor_index == actor_index && (i == 0 || !player.is_online) {
                return true;
            }
        }
        i = i + 1;
    }
    false
}

/// A hit without a damage cap that cannot be trusted.
pub fn restrict_damage_cap_to_local_and_ai(
    event: DamageEvent,
    players: &[Option<PlayerData>; PARTY_SIZE],
) -> (hit: DamageEvent)
    ensures
        hit == restricted(event, slots_model(players@)),
{
    let mut hit: DamageEvent = event;
    if !damage_cap_enabled_for_actor(players, event.source.parent_index) {
        hit.damage_cap = None;
    }
    hit
}

/// A hit as it counts.
pub fn adjust(
    event: &DamageEvent,
    players: &[Option<PlayerData>; PARTY_SIZE],
    known_parents: &HashMap<u32, u32>,
) -> (hit: DamageEvent)
    ensures
        hit == adjusted(*event, slots_model(players@), known_parents@),
{
    restrict_damage_cap_to_local_and_ai(
        resolve_id_transformation_parent(event, players, known_parents),
        players,
    )
}

/// The first slot with player `actor_index`, if there is one.
pub fn find_player(players: &[Option<PlayerData>; PARTY_SIZE], actor_index: u32) -> (position: Option<
    usize,
>)
    ensures
        match position {
            Some(i) => i < PARTY_SIZE && i == player_position(slots_model(players@), actor_index)
                && is_player(slots_model(players@)[i as int], actor_index),
            None => player_position(slots_model(players@), actor_index) == PARTY_SIZE,
        },
{
    let ghost party = slots_model(players@);
    let mut i: usize = 0;
    while i < PARTY_SIZE
        invariant
            i <= PARTY_SIZE,
            party == slots_model(players@),
            party.len() == PARTY_SIZE,
            forall|k: int| 0 <= k < i ==> !is_player(#[trigger] party[k], actor_index),
        decreases PARTY_SIZE - i,
    {
        assert(party[i as int] == slot_model(players@[i as int]));
        if let Some(player) = &players[i] {
            if player.actor_index == actor_index {
                proof {
                    lemma_player_position(party, actor_index, i as nat);
                }
                return Some(i);
            }
        }
        i = i + 1;
    }
    proof {
        lemma_player_position(party, actor_index, i as nat);
    }
    None
}

/// The deaths of each actor after one more report: added up, or the largest total.
pub open spec fn deaths_after(deaths: Map<u32, u32>, actor: u32, counter: u32, is_delta: bool) -> Map<
    u32,
    u32,
> {
    let before = if deaths.contains_key(actor) {
        deaths[actor]
    } else {
        0
    };
    let now = if is_delta {
        if before + counter > u32::MAX {
            u32::MAX
        } else {
            (before + counter) as u32
        }
    } else if counter > before {
        counter
    } else {
        before
    };
    deaths.insert(actor, now)
}

/// Counts a death, and passes the count on to the player it belongs to.
pub fn apply_death_count(
    death_counts: &mut HashMap<u32, u32>,
    derived_state: &mut DerivedEncounterState,
    id_transformation_parents: &HashMap<u32, u32>,
    actor_index: u32,
    death_counter: u32,
    is_delta: bool,
)
    ensures
        final(death_counts)@ == deaths_after(
            old(death_counts)@,
            owner_of(id_transformation_parents@, actor_index),
            death_counter,
            is_delta,
        ),
        final(derived_state)@ == with_deaths(
            old(derived_state)@,
            owner_of(id_transformation_parents@, actor_index),
            final(death_counts)@[owner_of(id_transformation_parents@, actor_index)],
        ),
{
    broadcast use vstd::std_specs::hash::group_hash_axioms;

    let actor: u32 = resolve_owner(id_transformation_parents, actor_index);
    let before: u32 = match death_counts.get(&actor) {
        Some(deaths) => *deaths,
        None => 0,
    };
    let deaths: u32 = if is_delta {
        before.saturating_add(death_counter)
    } else if death_counter > before {
        death_counter
    } else {
        before
    };
    death_counts.insert(actor, deaths);
    derived_state.set_deaths(actor, deaths);
}

} // verus!
