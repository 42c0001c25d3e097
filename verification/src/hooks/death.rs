//! Player deaths.

use vstd::prelude::*;

use crate::constants::{character_of, CharacterType};
use crate::hooks::{
    actor_idx, get_source_parent_instance, id_of, ids_with, parent_instance, type_lookup, ActorIds,
    ActorIdsModel, Lookup, Outbox, ProcessReads, ReadsModel,
};
use crate::protocol::{Message, OnDeathEvent};

verus! {

/// Where the owner of a death count keeps its actor.
pub const PLAYER_ACTOR_OFFSET: usize = 0x10;

/// Where the owner of a death count keeps the count.
pub const PLAYER_DEATH_COUNT_OFFSET: usize = 0x104;

/// By how much a count of deaths went up, if it did.
pub open spec fn death_delta(before: u32, after: u32) -> Option<u32> {
    if after > before {
        Some((after - before) as u32)
    } else {
        None
    }
}

/// By how much a count of deaths went up, if it did.
pub fn incremented_death_delta(before: u32, after: u32) -> (delta: Option<u32>)
    ensures
        delta == death_delta(before, after),
{
    if after > before {
        Some(after - before)
    } else {
        None
    }
}

/// Whether an actor type is that of a playable character.
pub fn is_player_actor_type(actor_type: u32) -> (answer: bool)
    ensures
        answer == !(character_of(actor_type) is Unknown),
{
    !CharacterType::from_hash(actor_type).is_unknown()
}

/// A call of the function that handles the death of a player, once it has returned.
#[derive(Clone, Copy, Debug, PartialEq, Eq, Structural)]
pub struct DeathCall {
    /// The actor, if it could be read.
    pub actor: Option<usize>,
    /// The count of deaths before the call, if it could be read.
    pub count_before: Option<u32>,
    /// The count of deaths after the call, if it could be read.
    pub count_after: Option<u32>,
}

/// Whose death is to be reported, and how many deaths: the actor that stands for a player
/// whose count went up.
pub open spec fn death_to_report(reads: ReadsModel, call: DeathCall) -> Lookup<Option<(usize, u32)>> {
    match (call.actor, call.count_before, call.count_after) {
        (Some(actor), Some(before), Some(after)) => if actor == 0 {
            Lookup::Done(None)
        } else {
            match death_delta(before, after) {
                Some(delta) => match type_lookup(reads, actor) {
                    Lookup::Needs(query) => Lookup::Needs(query),
                    Lookup::Done(actor_type) => if character_of(actor_type) is Unknown {
                        Lookup::Done(None)
                    } else {
                        match parent_instance(reads, actor_type, actor) {
                            Lookup::Needs(query) => Lookup::Needs(query),
                            Lookup::Done(Some(parent)) => Lookup::Done(Some((parent, delta))),
                            Lookup::Done(None) => Lookup::Done(Some((actor, delta))),
                        }
                    },
                },
                None => Lookup::Done(None),
            }
        },
        _ => Lookup::Done(None),
    }
}

/// Whose death is to be reported, and how many deaths.
fn locate_death(reads: &ProcessReads, call: &DeathCall) -> (death: Lookup<Option<(usize, u32)>>)
    ensures
        death == death_to_report(reads@, *call),
{
    let (actor, before, after): (usize, u32, u32) = match (
        call.actor,
        call.count_before,
        call.count_after,
    ) {
        (Some(actor), Some(before), Some(after)) => (actor, before, after),
        _ => {
            return Lookup::Done(None);
        },
    };
    if actor == 0 {
        return Lookup::Done(None);
    }
    let delta: u32 = match incremented_death_delta(before, after) {
        Some(delta) => delta,
        None => {
            return Lookup::Done(None);
        },
    };
    let actor_type: u32 = match reads.actor_type(actor) {
        Lookup::Needs(query) => {
            return Lookup::Needs(query);
        },
        Lookup::Done(actor_type) => actor_type,
    };
    if !is_player_actor_type(actor_type) {
        return Lookup::Done(None);
    }
    match get_source_parent_instance(reads, actor_type, actor) {
        Lookup::Needs(query) => Lookup::Needs(query),
        Lookup::Done(Some(parent)) => Lookup::Done(Some((parent, delta))),
        Lookup::Done(None) => Lookup::Done(Some((actor, delta))),
    }
}

/// The message that reports the death of a player.
pub open spec fn death_message(ids: ActorIdsModel, actor: usize, delta: u32) -> Message {
    Message::OnDeathEvent(
        OnDeathEvent { actor_index: id_of(ids, actor), death_counter: delta, is_delta: true },
    )
}

/// Where something stands that is kept `offset` behind `base`, if there is such a place.
pub open spec fn place_behind(base: usize, offset: usize) -> Option<usize> {
    if base + offset > usize::MAX {
        None
    } else {
        Some((base + offset) as usize)
    }
}

/// Where the actor of the owner of a death count is kept.
pub open spec fn actor_place(owner: usize) -> Option<usize> {
    place_behind(owner, PLAYER_ACTOR_OFFSET)
}

/// Where the owner of a death count keeps the count.
pub open spec fn count_place(owner: usize) -> Option<usize> {
    place_behind(owner, PLAYER_DEATH_COUNT_OFFSET)
}

/// Called when the game handles the death of a player.
#[derive(Debug)]
pub struct OnDeathHook {
    pub tx: Outbox,
}

impl OnDeathHook {
    /// A hook that sends its messages through `tx`.
    pub fn new(tx: Outbox) -> (hook: Self)
        ensures
            hook.tx == tx,
    {
        OnDeathHook { tx }
    }

    /// Where the actor of the owner of a death count is kept.
    pub fn actor_address(owner: usize) -> (address: Option<usize>)
        ensures
            address == actor_place(owner),
    {
        owner.checked_add(PLAYER_ACTOR_OFFSET)
    }

    /// Where the owner of a death count keeps the count.
    pub fn count_address(owner: usize) -> (address: Option<usize>)
        ensures
            address == count_place(owner),
    {
        owner.checked_add(PLAYER_DEATH_COUNT_OFFSET)
    }

    /// Reports the death of a player, unless its count did not go up.
    pub fn run(&mut self, actor_ids: &mut ActorIds, reads: &ProcessReads, call: &DeathCall) -> (done:
        Lookup<()>)
        ensures
            match death_to_report(reads@, *call) {
                Lookup::Needs(query) => done == Lookup::<()>::Needs(query) && final(self).tx@ == old(
                    self).tx@ && final(actor_ids)@ == old(actor_ids)@,
                Lookup::Done(None) => done == Lookup::Done(()) && final(self).tx@ == old(self).tx@
                    && final(actor_ids)@ == old(actor_ids)@,
                Lookup::Done(Some((actor, delta))) => done == Lookup::Done(()) && final(self).tx@
                    == old(self).tx@.push(death_message(old(actor_ids)@, actor, delta)) && final(actor_ids)@ == ids_with(old(actor_ids)@, actor),
            },
    {
        match locate_death(reads, call) {
            Lookup::Needs(query) => Lookup::Needs(query),
            Lookup::Done(None) => Lookup::Done(()),
            Lookup::Done(Some((actor, delta))) => {
                let actor_index: u32 = actor_idx(actor_ids, actor);
                self.tx.send(
                    Message::OnDeathEvent(
                        OnDeathEvent { actor_index, death_counter: delta, is_delta: true },
                    ),
                );
                Lookup::Done(())
            },
        }
    }
}

} // verus!
