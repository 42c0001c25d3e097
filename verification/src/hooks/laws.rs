//! What holds of the hooks as a whole.

use vstd::prelude::*;

use crate::hooks::damage::{
    actors_of, dot_and_actors, dot_hit, equipment_noted, has_equipment, identity_noted,
    DOT_SOURCE_OFFSET, DOT_TARGET_OFFSET,
};
use crate::hooks::death::{death_to_report, DeathCall};
use crate::hooks::equipment::{ActorBody, MasterTraitEffects};
use crate::hooks::player::{
    changes_mapping, changes_session, equipment_marker, equipment_missing, identity_at,
    identity_refreshed, is_player_record, player_to_report, store_with, ActorHead, CachesModel,
    IdentityModel, PlayerSnapshot, StoreModel,
};
use crate::hooks::quest::quest_in;
use crate::hooks::{
    id_of, ids_with, parent_and_type, parent_at, parent_instance, parent_offset, pointer_at,
    step_after, type_lookup, ActorIdsModel, Lookup, ReadsModel, SetupError, SetupStep,
    SPECIFIED_INSTANCE_OFFSET,
};

verus! {

/// How many numbers there are for actors.
pub const NUMBERS: u64 = 0x1_0000_0000;

/// Whether the actors seen so far have the numbers from zero on, each its own.
pub open spec fn well_numbered(ids: ActorIdsModel) -> bool {
    let seen = ids.by_instance.dom();
    &&& seen.finite()
    &&& seen.len() <= NUMBERS
    &&& ids.next_id == (if seen.len() == NUMBERS {
        0
    } else {
        seen.len() as int
    })
    &&& forall|actor: usize| #[trigger]
        ids.by_instance.contains_key(actor) ==> ids.by_instance[actor] < seen.len()
    &&& forall|a: usize, b: usize| #[trigger]
        ids.by_instance.contains_key(a) && #[trigger] ids.by_instance.contains_key(b)
            && ids.by_instance[a] == ids.by_instance[b] ==> a == b
}

/// Before any actor was seen, the numbers are in order.
pub proof fn law_numbering_starts_in_order()
    ensures
        well_numbered(ActorIdsModel { by_instance: Map::empty(), next_id: 0 }),
{
}

/// A new actor gets the number of actors seen before it, as long as there are numbers left.
pub proof fn law_new_actors_are_counted(ids: ActorIdsModel, actor: usize)
    requires
        well_numbered(ids),
        ids.by_instance.contains_key(actor) || ids.by_instance.dom().len() < NUMBERS,
    ensures
        well_numbered(ids_with(ids, actor)),
        !ids.by_instance.contains_key(actor) ==> id_of(ids, actor) == ids.by_instance.dom().len(),
{
    let after = ids_with(ids, actor);
    if !ids.by_instance.contains_key(actor) {
        assert(after.by_instance.dom() == ids.by_instance.dom().insert(actor));
    }
}

/// Different actors get different numbers, as long as there are numbers left.
pub proof fn law_actors_are_told_apart(ids: ActorIdsModel, a: usize, b: usize)
    requires
        well_numbered(ids),
        ids_with(ids_with(ids, a), b).by_instance.dom().len() <= NUMBERS,
        a != b,
    ensures
        id_of(ids, a) != id_of(ids_with(ids, a), b),
{
    let with_a = ids_with(ids, a);
    let with_both = ids_with(with_a, b);
    if !ids.by_instance.contains_key(a) {
        assert(with_a.by_instance.dom() == ids.by_instance.dom().insert(a));
    }
    if !with_a.by_instance.contains_key(b) {
        assert(with_both.by_instance.dom() == with_a.by_instance.dom().insert(b));
    }
    law_new_actors_are_counted(ids, a);
    law_new_actors_are_counted(with_a, b);
    assert(with_both.by_instance.contains_key(a));
    assert(with_both.by_instance.contains_key(b));
}

/// An actor keeps its number, whatever other actor is looked up.
pub proof fn law_numbers_are_kept(ids: ActorIdsModel, actor: usize, other: usize)
    ensures
        id_of(ids_with(ids_with(ids, actor), other), actor) == id_of(ids, actor),
        ids_with(ids_with(ids, actor), actor) == ids_with(ids, actor),
{
}

/// Whether what was read first is part of what was read later.
pub open spec fn extends(first: ReadsModel, later: ReadsModel) -> bool {
    &&& first.words.submap_of(later.words)
    &&& first.halves.submap_of(later.halves)
    &&& first.types.submap_of(later.types)
}

proof fn lemma_pointer_stands(first: ReadsModel, later: ReadsModel, base: usize, offset: usize)
    requires
        extends(first, later),
    ensures
        pointer_at(first, base, offset) is Done ==> pointer_at(later, base, offset) == pointer_at(
            first,
            base,
            offset,
        ),
{
}

proof fn lemma_parent_at_stands(first: ReadsModel, later: ReadsModel, actor: usize, offset: usize)
    requires
        extends(first, later),
    ensures
        parent_at(first, actor, offset) is Done ==> parent_at(later, actor, offset) == parent_at(
            first,
            actor,
            offset,
        ),
{
    lemma_pointer_stands(first, later, actor, offset);
    if let Lookup::Done(Some(entity)) = pointer_at(first, actor, offset) {
        lemma_pointer_stands(first, later, entity, SPECIFIED_INSTANCE_OFFSET);
    }
}

/// Which actor another belongs to, once it is known, stands, whatever else is read later.
pub proof fn law_parent_stands(first: ReadsModel, later: ReadsModel, actor_type: u32, actor: usize)
    requires
        extends(first, later),
    ensures
        parent_instance(first, actor_type, actor) is Done ==> parent_instance(
            later,
            actor_type,
            actor,
        ) == parent_instance(first, actor_type, actor),
        parent_and_type(first, actor_type, actor) is Done ==> parent_and_type(
            later,
            actor_type,
            actor,
        ) == parent_and_type(first, actor_type, actor),
{
    if let Some(offset) = parent_offset(actor_type) {
        lemma_parent_at_stands(first, later, actor, offset);
    }
}

/// Who a hit comes from and goes to, once it is known, stands, whatever else is read later.
pub proof fn law_actors_stand(first: ReadsModel, later: ReadsModel, source: usize, target: usize)
    requires
        extends(first, later),
    ensures
        actors_of(first, source, target) is Done ==> actors_of(later, source, target) == actors_of(
            first,
            source,
            target,
        ),
{
    if let Lookup::Done(source_type) = type_lookup(first, source) {
        law_parent_stands(first, later, source_type, source);
    }
}

/// What damage over time there was, once it is known, stands, whatever else is read later.
pub proof fn law_dot_stands(first: ReadsModel, later: ReadsModel, dot_instance: usize, result: usize)
    requires
        extends(first, later),
    ensures
        dot_and_actors(first, dot_instance, result) is Done ==> dot_and_actors(
            later,
            dot_instance,
            result,
        ) == dot_and_actors(first, dot_instance, result),
{
    lemma_parent_at_stands(first, later, dot_instance, DOT_TARGET_OFFSET);
    lemma_parent_at_stands(first, later, dot_instance, DOT_SOURCE_OFFSET);
    if let Lookup::Done(Some(hit)) = dot_hit(first, dot_instance, result) {
        law_actors_stand(first, later, hit.source, hit.target);
    }
}

/// Whose death is to be reported, once it is known, stands, whatever else is read later.
pub proof fn law_death_stands(first: ReadsModel, later: ReadsModel, call: DeathCall)
    requires
        extends(first, later),
    ensures
        death_to_report(first, call) is Done ==> death_to_report(later, call) == death_to_report(
            first,
            call,
        ),
{
    if let Some(actor) = call.actor {
        if let Lookup::Done(actor_type) = type_lookup(first, actor) {
            law_parent_stands(first, later, actor_type, actor);
        }
    }
}

/// Which quest is in progress, once it is known, stands, whatever else is read later.
pub proof fn law_quest_stands(first: ReadsModel, later: ReadsModel, singleton_slot: usize)
    requires
        extends(first, later),
    ensures
        quest_in(first, singleton_slot) is Done ==> quest_in(later, singleton_slot) == quest_in(
            first,
            singleton_slot,
        ),
{
    lemma_pointer_stands(first, later, singleton_slot, 0);
}

/// Whether an answer asks for something that was read already.
pub open spec fn asks_again<T>(reads: ReadsModel, answer: Lookup<T>) -> bool {
    answer matches Lookup::Needs(query) && reads.knows(query)
}

/// Nothing is asked for that was read already.
pub proof fn law_nothing_is_asked_twice(
    reads: ReadsModel,
    actor_type: u32,
    a: usize,
    b: usize,
    call: DeathCall,
)
    ensures
        !asks_again(reads, parent_instance(reads, actor_type, a)),
        !asks_again(reads, parent_and_type(reads, actor_type, a)),
        !asks_again(reads, actors_of(reads, a, b)),
        !asks_again(reads, dot_and_actors(reads, a, b)),
        !asks_again(reads, death_to_report(reads, call)),
        !asks_again(reads, quest_in(reads, a)),
{
}

/// A record that is no player's changes nothing, whatever the game shows with it.
pub proof fn law_only_players_are_taken_in(
    caches: CachesModel,
    player_key: u32,
    player_state: u32,
    snapshot: Option<&PlayerSnapshot>,
)
    requires
        !is_player_record(player_key, player_state),
    ensures
        identity_refreshed(caches, player_key, player_state, snapshot) == caches,
{
}

/// Whether every key stands in one party slot at most.
pub open spec fn one_slot_each(active: Map<u8, u32>) -> bool {
    forall|p: u8, q: u8| #[trigger]
        active.contains_key(p) && #[trigger] active.contains_key(q) && active[p] == active[q] ==> p
            == q
}

/// Storing an identity keeps every key in one party slot at most.
pub proof fn law_one_slot_each(store: StoreModel, player_key: u32, identity: IdentityModel)
    requires
        one_slot_each(store.active_key_by_party),
    ensures
        one_slot_each(store_with(store, player_key, identity).active_key_by_party),
        store_with(store, player_key, identity).active_key_by_party.contains_key(
            identity.party_index,
        ),
        store_with(store, player_key, identity).active_key_by_party[identity.party_index]
            == player_key,
{
}

/// Whether the key in every party slot is that of an identity that was stored for that slot.
pub open spec fn slots_are_known(store: StoreModel) -> bool {
    forall|party: u8| #[trigger]
        store.active_key_by_party.contains_key(party) ==> identity_at(
            store,
            store.active_key_by_party[party],
            party,
        ) is Some
}

/// Where nobody is known, no party slot is taken.
pub proof fn law_slots_start_empty(store: StoreModel)
    requires
        store.active_key_by_party == Map::<u8, u32>::empty(),
    ensures
        one_slot_each(store.active_key_by_party),
        slots_are_known(store),
{
}

/// Storing an identity keeps every party slot with the key of an identity that was stored for
/// that slot.
pub proof fn law_slots_are_known(store: StoreModel, player_key: u32, identity: IdentityModel)
    requires
        slots_are_known(store),
    ensures
        slots_are_known(store_with(store, player_key, identity)),
{
    let after = store_with(store, player_key, identity);
    assert forall|party: u8| #[trigger] after.active_key_by_party.contains_key(party) implies
        identity_at(after, after.active_key_by_party[party], party) is Some by {
        if party != identity.party_index {
            assert(store.active_key_by_party.contains_key(party));
        }
    }
}

/// An identity that was stored is found under its key and slot, and under no other slot.
pub proof fn law_stored_identity_is_found(
    store: StoreModel,
    player_key: u32,
    identity: IdentityModel,
    party_index: u8,
)
    ensures
        identity_at(store_with(store, player_key, identity), player_key, party_index) == (
        if party_index == identity.party_index {
            Some(identity)
        } else {
            None
        }),
{
}

/// Storing an identity keeps those of the other players, unless another local player has
/// taken over: then they are forgotten.
pub proof fn law_other_identities(
    store: StoreModel,
    player_key: u32,
    identity: IdentityModel,
    other: u32,
    party_index: u8,
)
    requires
        other != player_key,
    ensures
        identity_at(store_with(store, player_key, identity), other, party_index) == (
        if changes_session(store, player_key, identity) {
            None
        } else {
            identity_at(store, other, party_index)
        }),
{
}

/// Storing an identity a second time changes nothing.
pub proof fn law_storing_twice(store: StoreModel, player_key: u32, identity: IdentityModel)
    ensures
        store_with(store_with(store, player_key, identity), player_key, identity) == store_with(
            store,
            player_key,
            identity,
        ),
        !changes_mapping(store_with(store, player_key, identity), player_key, identity),
{
    let once = store_with(store, player_key, identity);
    assert(store_with(once, player_key, identity).by_key == once.by_key);
    assert(store_with(once, player_key, identity).active_key_by_party == once.active_key_by_party);
}

/// Who plays an actor is reported once.
pub proof fn law_player_is_reported_once(
    caches: CachesModel,
    actor: usize,
    head: ActorHead,
    character_type: u32,
)
    ensures
        player_to_report(
            identity_noted(caches, actor, head, character_type),
            actor,
            head,
            character_type,
        ) is None,
{
    match player_to_report(caches, actor, head, character_type) {
        Some((_, marker)) => {
            let markers = caches.actor_keys.push(marker);
            assert(markers[markers.len() - 1] == marker);
            assert(markers.contains(marker));
        },
        None => {},
    }
}

/// What an actor has equipped is reported once.
pub proof fn law_equipment_is_reported_once(
    caches: CachesModel,
    actor: usize,
    head: ActorHead,
    body: Option<&ActorBody>,
    character_type: u32,
    effects: MasterTraitEffects,
)
    requires
        has_equipment(caches, actor, head, body, character_type, effects),
    ensures
        !equipment_missing(
            equipment_noted(caches, actor, head, body, character_type, effects),
            actor,
            head,
        ),
{
    let marker = equipment_marker(actor, head)->0;
    let markers = caches.equipment_actors.push(marker);
    assert(markers[markers.len() - 1] == marker);
    assert(markers.contains(marker));
}

/// The installation fails exactly where the game is not found or the damage hook cannot be
/// installed; every other hook may be missing, and the installation still finishes.
pub proof fn law_only_damage_is_vital(step: SetupStep, succeeded: bool)
    ensures
        step_after(step, succeeded) is Err <==> !succeeded && (step is FindProcess || step is Damage),
        step_after(SetupStep::FindProcess, true) == Ok::<SetupStep, SetupError>(SetupStep::Damage),
        step_after(SetupStep::Damage, true) == Ok::<SetupStep, SetupError>(SetupStep::DamageOverTime),
        step_after(SetupStep::DamageOverTime, succeeded) == Ok::<SetupStep, SetupError>(
            SetupStep::PlayerIdentity,
        ),
        step_after(SetupStep::PlayerIdentity, succeeded) == Ok::<SetupStep, SetupError>(
            SetupStep::BattleEnd,
        ),
        step_after(SetupStep::BattleEnd, succeeded) == Ok::<SetupStep, SetupError>(SetupStep::Death),
        step_after(SetupStep::Death, succeeded) == Ok::<SetupStep, SetupError>(SetupStep::Finished),
{
}

} // verus!
