//! Hits and damage over time.

use vstd::prelude::*;

use crate::cap_detection::{cap_known, is_cap_known};
use crate::float32::{Float32, ONE_MILLION_BITS};
use crate::hooks::equipment::{are_master_traits, ActorBody, MasterTraitEffects};
use crate::hooks::ffi::DamageInstance;
use crate::hooks::player::{
    equipment_event_for_actor, equipment_marker, equipment_to_report, identity_event_for_actor,
    player_to_report, reports_equipment, reports_player, ActorHead, CachesModel, PlayerCaches,
};
use crate::hooks::{
    actor_idx, half_lookup, id_of, ids_with, parent_and_type, parent_at,
    parent_specified_instance_at, type_lookup, typed_source_parent, ActorIds, ActorIdsModel, Lookup,
    Outbox, ProcessReads, ReadsModel,
};
use crate::protocol::{ActionType, Actor, DamageEvent, Message};

verus! {

pub const POISON_DOT_ID: u32 = 0;

pub const BURN_DOT_ID: u32 = 1;

/// Bits 7 and 50: a link attack.
pub const LINK_ATTACK_FLAGS: u64 = 0x0004_0000_0000_0080;

/// Bits 13 and 14: a skybound art.
pub const SBA_FLAGS: u64 = 0x6000;

/// Bit 15: supplementary damage.
pub const SUPPLEMENTARY_DAMAGE_FLAG: u64 = 0x8000;

/// What kind of action a hit comes from.
pub open spec fn action_of(flags: u64, action_id: u32) -> ActionType {
    if LINK_ATTACK_FLAGS & flags != 0 {
        ActionType::LinkAttack
    } else if SBA_FLAGS & flags != 0 {
        ActionType::SBA
    } else if SUPPLEMENTARY_DAMAGE_FLAG & flags != 0 {
        ActionType::SupplementaryDamage(action_id)
    } else {
        ActionType::Normal(action_id)
    }
}

/// What kind of action a hit comes from.
pub fn action_type_for_event(flags: u64, action_id: u32) -> (action: ActionType)
    ensures
        action == action_of(flags, action_id),
{
    if LINK_ATTACK_FLAGS & flags != 0 {
        ActionType::LinkAttack
    } else if SBA_FLAGS & flags != 0 {
        ActionType::SBA
    } else if SUPPLEMENTARY_DAMAGE_FLAG & flags != 0 {
        ActionType::SupplementaryDamage(action_id)
    } else {
        ActionType::Normal(action_id)
    }
}

/// The stun value of a hit: what the game says, if that is positive and at most a million.
/// Supplementary damage has none.
pub open spec fn stun_for(action: ActionType, raw: Float32) -> Option<Float32> {
    if !(action is SupplementaryDamage) && raw.finite() && (Float32 { bits: 0 }).below(raw)
        && raw.at_most(Float32 { bits: ONE_MILLION_BITS }) {
        Some(raw)
    } else {
        None
    }
}

/// The stun value of a hit.
pub fn stun_value_for_event(action_type: &ActionType, raw_stun_value: Float32) -> (stun: Option<Float32>)
    ensures
        stun == stun_for(*action_type, raw_stun_value),
{
    match action_type {
        ActionType::SupplementaryDamage(_) => None,
        _ => if raw_stun_value.is_finite() && Float32::zero().lt(raw_stun_value)
            && raw_stun_value.le(Float32::from_bits(ONE_MILLION_BITS)) {
            Some(raw_stun_value)
        } else {
            None
        },
    }
}

/// The damage cap of a hit, if the game tells one.
pub open spec fn cap_for(cap: i32) -> Option<i32> {
    if cap_known(Some(cap)) {
        Some(cap)
    } else {
        None
    }
}

/// A call of the function that applies a hit, once it has returned.
#[derive(Clone, Copy, Debug, PartialEq, Eq, Structural)]
pub struct DamageCall {
    /// What the function returned.
    pub original_value: usize,
    /// The entity that the hit comes from.
    pub source_entity: usize,
    /// The actor that the hit comes from.
    pub source: usize,
    /// The actor that is hit.
    pub target: usize,
    pub instance: DamageInstance,
}

/// Whether a call did damage. An online pet may leave it without a source.
pub open spec fn did_damage(call: DamageCall) -> bool {
    call.source_entity != 0 && call.original_value != 0 && call.instance.damage > 0
}

/// Who a hit comes from and goes to.
#[derive(Clone, Copy, Debug, PartialEq, Eq)]
pub struct DamageActors {
    pub source_type: u32,
    /// Type and address of the actor that the source belongs to, if it belongs to one.
    pub parent: Option<(u32, usize)>,
    pub target_type: u32,
}

impl DamageActors {
    /// The actor that stands for a player: the parent, or else the source.
    pub open spec fn owner(self, source: usize) -> usize {
        match self.parent {
            Some((_, parent)) => parent,
            None => source,
        }
    }

    /// The type of the actor that stands for a player.
    pub open spec fn owner_type(self) -> u32 {
        match self.parent {
            Some((parent_type, _)) => parent_type,
            None => self.source_type,
        }
    }

    /// The actor that stands for a player: the parent, or else the source.
    pub fn owner_of(&self, source: usize) -> (owner: usize)
        ensures
            owner == self.owner(source),
    {
        match self.parent {
            Some((_, parent)) => parent,
            None => source,
        }
    }
}

/// Who a hit comes from and goes to.
pub open spec fn actors_of(reads: ReadsModel, source: usize, target: usize) -> Lookup<DamageActors> {
    match type_lookup(reads, source) {
        Lookup::Needs(query) => Lookup::Needs(query),
        Lookup::Done(source_type) => match parent_and_type(reads, source_type, source) {
            Lookup::Needs(query) => Lookup::Needs(query),
            Lookup::Done(parent) => match type_lookup(reads, target) {
                Lookup::Needs(query) => Lookup::Needs(query),
                Lookup::Done(target_type) => Lookup::Done(
                    DamageActors { source_type, parent, target_type },
                ),
            },
        },
    }
}

/// Who a hit comes from and goes to.
pub fn damage_actors(reads: &ProcessReads, source: usize, target: usize) -> (actors: Lookup<DamageActors>)
    ensures
        actors == actors_of(reads@, source, target),
{
    let source_type: u32 = match reads.actor_type(source) {
        Lookup::Needs(query) => {
            return Lookup::Needs(query);
        },
        Lookup::Done(source_type) => source_type,
    };
    let parent = match typed_source_parent(reads, source_type, source) {
        Lookup::Needs(query) => {
            return Lookup::Needs(query);
        },
        Lookup::Done(parent) => parent,
    };
    match reads.actor_type(target) {
        Lookup::Needs(query) => Lookup::Needs(query),
        Lookup::Done(target_type) => Lookup::Done(DamageActors { source_type, parent, target_type }),
    }
}

/// The numbers of the two ends of a hit.
#[derive(Clone, Copy, Debug, PartialEq, Eq, Structural)]
pub struct DamageIndices {
    pub source: u32,
    pub parent: u32,
    pub target: u32,
}

/// A hit as it is reported.
pub open spec fn reported_damage(
    actors: DamageActors,
    indices: DamageIndices,
    damage: i32,
    flags: u64,
    action_id: ActionType,
    stun_value: Option<Float32>,
    damage_cap: Option<i32>,
) -> DamageEvent {
    DamageEvent {
        source: Actor {
            index: indices.source,
            actor_type: actors.source_type,
            parent_index: indices.parent,
            parent_actor_type: actors.owner_type(),
        },
        target: Actor {
            index: indices.target,
            actor_type: actors.target_type,
            parent_index: indices.target,
            parent_actor_type: actors.target_type,
        },
        damage,
        flags,
        action_id,
        attack_rate: None,
        stun_value,
        damage_cap,
    }
}

/// The message that reports a hit.
pub open spec fn hit_message(
    actors: DamageActors,
    indices: DamageIndices,
    instance: DamageInstance,
) -> Message {
    let action = action_of(instance.flags, instance.action_id);
    Message::DamageEvent(
        reported_damage(
            actors,
            indices,
            instance.damage,
            instance.flags,
            action,
            stun_for(action, instance.stun_value),
            cap_for(instance.damage_cap),
        ),
    )
}

fn report_damage(
    actors: &DamageActors,
    indices: DamageIndices,
    damage: i32,
    flags: u64,
    action_id: ActionType,
    stun_value: Option<Float32>,
    damage_cap: Option<i32>,
) -> (event: DamageEvent)
    ensures
        event == reported_damage(
            *actors,
            indices,
            damage,
            flags,
            action_id,
            stun_value,
            damage_cap,
        ),
{
    let parent_actor_type: u32 = match actors.parent {
        Some((parent_type, _)) => parent_type,
        None => actors.source_type,
    };
    DamageEvent {
        source: Actor {
            index: indices.source,
            actor_type: actors.source_type,
            parent_index: indices.parent,
            parent_actor_type,
        },
        target: Actor {
            index: indices.target,
            actor_type: actors.target_type,
            parent_index: indices.target,
            parent_actor_type: actors.target_type,
        },
        damage,
        flags,
        action_id,
        attack_rate: None,
        stun_value,
        damage_cap,
    }
}

/// The numbers of actors once the source of a hit and its parent have one.
pub open spec fn ids_with_source(ids: ActorIdsModel, source: usize, actors: DamageActors) -> ActorIdsModel {
    let with_source = ids_with(ids, source);
    match actors.parent {
        Some((_, parent)) => ids_with(with_source, parent),
        None => with_source,
    }
}

/// The number of the actor that a hit belongs to.
pub open spec fn parent_index(ids: ActorIdsModel, source: usize, actors: DamageActors) -> u32 {
    match actors.parent {
        Some((_, parent)) => id_of(ids_with(ids, source), parent),
        None => id_of(ids, source),
    }
}

/// Whether a report of who plays an actor was sent, if there was one to send.
pub open spec fn identity_sent(
    before: Seq<Message>,
    after: Seq<Message>,
    caches: CachesModel,
    owner: usize,
    head: ActorHead,
    owner_type: u32,
    owner_index: u32,
) -> bool {
    match player_to_report(caches, owner, head, owner_type) {
        Some((identity, _)) => after.len() == before.len() + 1 && after.drop_last() == before && (
        after.last() matches Message::PlayerIdentityEvent(event) && reports_player(
            event,
            identity,
            owner_type,
            owner_index,
        )),
        None => after == before,
    }
}

/// The caches once it was reported who plays an actor, if there was anyone to report.
pub open spec fn identity_noted(
    caches: CachesModel,
    owner: usize,
    head: ActorHead,
    owner_type: u32,
) -> CachesModel {
    match player_to_report(caches, owner, head, owner_type) {
        Some((_, marker)) => CachesModel { actor_keys: caches.actor_keys.push(marker), ..caches },
        None => caches,
    }
}

/// Whether there is equipment of an actor to report, given what was read of it.
pub open spec fn has_equipment(
    caches: CachesModel,
    owner: usize,
    head: ActorHead,
    body: Option<&ActorBody>,
    owner_type: u32,
    effects: MasterTraitEffects,
) -> bool {
    body matches Some(body) && equipment_to_report(caches, owner, head, *body, owner_type, effects)
}

/// Whether a report of the equipment of an actor was sent, if there was one to send.
pub open spec fn equipment_sent(
    before: Seq<Message>,
    after: Seq<Message>,
    caches: CachesModel,
    owner: usize,
    head: ActorHead,
    body: Option<&ActorBody>,
    owner_type: u32,
    owner_index: u32,
    effects: MasterTraitEffects,
) -> bool {
    if has_equipment(caches, owner, head, body, owner_type, effects) {
        after.len() == before.len() + 1 && after.drop_last() == before && (after.last() matches
            Message::PlayerEquipmentEvent(event) && reports_equipment(
            event,
            caches,
            equipment_marker(owner, head)->0,
            head.machine()->0,
            *(body->0),
            owner_type,
            owner_index,
        ) && are_master_traits(
            (body->0).data,
            owner_type,
            effects.characters@,
            event.master_traits,
        ))
    } else {
        after == before
    }
}

/// The caches once the equipment of an actor was reported, if there was any to report.
pub open spec fn equipment_noted(
    caches: CachesModel,
    owner: usize,
    head: ActorHead,
    body: Option<&ActorBody>,
    owner_type: u32,
    effects: MasterTraitEffects,
) -> CachesModel {
    if has_equipment(caches, owner, head, body, owner_type, effects) {
        CachesModel {
            equipment_actors: caches.equipment_actors.push(equipment_marker(owner, head)->0),
            ..caches
        }
    } else {
        caches
    }
}

/// Whether it was reported who plays an actor, and then what it has equipped, as far as there
/// was anything to report.
pub open spec fn source_reported(
    before: Seq<Message>,
    after: Seq<Message>,
    caches: CachesModel,
    owner: usize,
    head: ActorHead,
    body: Option<&ActorBody>,
    owner_type: u32,
    owner_index: u32,
    effects: MasterTraitEffects,
) -> bool {
    exists|between: Seq<Message>| #[trigger]
        identity_sent(before, between, caches, owner, head, owner_type, owner_index)
            && equipment_sent(
            between,
            after,
            identity_noted(caches, owner, head, owner_type),
            owner,
            head,
            body,
            owner_type,
            owner_index,
            effects,
        )
}

/// Called when the game applies a hit.
#[derive(Debug)]
pub struct OnProcessDamageHook {
    pub tx: Outbox,
}

impl OnProcessDamageHook {
    /// A hook that sends its messages through `tx`.
    pub fn new(tx: Outbox) -> (hook: Self)
        ensures
            hook.tx == tx,
    {
        OnProcessDamageHook { tx }
    }

    /// Who a hit comes from and goes to; nobody, if the call did no damage.
    pub fn locate(reads: &ProcessReads, call: &DamageCall) -> (actors: Lookup<Option<DamageActors>>)
        ensures
            if did_damage(*call) {
                match actors_of(reads@, call.source, call.target) {
                    Lookup::Needs(query) => actors == Lookup::<Option<DamageActors>>::Needs(query),
                    Lookup::Done(found) => actors == Lookup::Done(Some(found)),
                }
            } else {
                actors == Lookup::<Option<DamageActors>>::Done(None)
            },
    {
        if call.source_entity == 0 || call.original_value == 0 || call.instance.damage <= 0 {
            return Lookup::Done(None);
        }
        match damage_actors(reads, call.source, call.target) {
            Lookup::Needs(query) => Lookup::Needs(query),
            Lookup::Done(actors) => Lookup::Done(Some(actors)),
        }
    }

    /// Numbers the source of a hit that did damage, and reports who plays it and what it has
    /// equipped. Gives the numbers of the source and of the actor it belongs to.
    ///
    /// `head` is that of the actor that stands for the player; `body` is the rest of it, if
    /// it was read.
    pub fn observe_source(
        &mut self,
        actor_ids: &mut ActorIds,
        caches: &mut PlayerCaches,
        call: &DamageCall,
        actors: &DamageActors,
        head: &ActorHead,
        body: Option<&ActorBody>,
        effects: &MasterTraitEffects,
    ) -> (indices: (u32, u32))
        requires
            did_damage(*call),
        ensures
            indices.0 == id_of(old(actor_ids)@, call.source),
            indices.1 == parent_index(old(actor_ids)@, call.source, *actors),
            final(actor_ids)@ == ids_with_source(old(actor_ids)@, call.source, *actors),
            final(caches)@ == equipment_noted(
                identity_noted(
                    old(caches)@,
                    actors.owner(call.source),
                    *head,
                    actors.owner_type(),
                ),
                actors.owner(call.source),
                *head,
                body,
                actors.owner_type(),
                *effects,
            ),
            source_reported(
                old(self).tx@,
                final(self).tx@,
                old(caches)@,
                actors.owner(call.source),
                *head,
                body,
                actors.owner_type(),
                indices.1,
                *effects,
            ),
    {
        let source_index: u32 = actor_idx(actor_ids, call.source);
        let (owner, owner_type, owner_index): (usize, u32, u32) = match actors.parent {
            Some((parent_type, parent)) => (parent, parent_type, actor_idx(actor_ids, parent)),
            None => (call.source, actors.source_type, source_index),
        };
        if let Some(identity) = identity_event_for_actor(
            caches,
            owner,
            head,
            owner_type,
            owner_index,
        ) {
            self.tx.send(Message::PlayerIdentityEvent(identity));
        }
        let ghost between = self.tx@;
        assert(identity_sent(
            old(self).tx@,
            between,
            old(caches)@,
            owner,
            *head,
            owner_type,
            owner_index,
        )) by {
            if player_to_report(old(caches)@, owner, *head, owner_type) is Some {
                assert(between.drop_last() == old(self).tx@);
            }
        }
        let ghost noted = caches@;
        assert(noted == identity_noted(old(caches)@, owner, *head, owner_type));
        if let Some(body) = body {
            if let Some(equipment) = equipment_event_for_actor(
                caches,
                owner,
                head,
                body,
                owner_type,
                owner_index,
                effects,
            ) {
                self.tx.send(Message::PlayerEquipmentEvent(equipment));
                assert(self.tx@.drop_last() == between);
            }
        }
        assert(equipment_sent(
            between,
            self.tx@,
            noted,
            owner,
            *head,
            body,
            owner_type,
            owner_index,
            *effects,
        ));
        assert(owner == actors.owner(call.source) && owner_type == actors.owner_type());
        assert(source_reported(
            old(self).tx@,
            self.tx@,
            old(caches)@,
            owner,
            *head,
            body,
            owner_type,
            owner_index,
            *effects,
        ));
        (source_index, owner_index)
    }

    /// Numbers the target of a hit that did damage, and reports the hit. `indices` are the
    /// numbers of the source and of the actor it belongs to.
    pub fn run(
        &mut self,
        actor_ids: &mut ActorIds,
        call: &DamageCall,
        actors: &DamageActors,
        indices: (u32, u32),
    )
        requires
            did_damage(*call),
        ensures
            final(actor_ids)@ == ids_with(old(actor_ids)@, call.target),
            final(self).tx@ == old(self).tx@.push(
                hit_message(
                    *actors,
                    (DamageIndices {
                        source: indices.0,
                        parent: indices.1,
                        target: id_of(old(actor_ids)@, call.target),
                    }),
                    call.instance,
                ),
            ),
    {
        let action: ActionType = action_type_for_event(
            call.instance.flags,
            call.instance.action_id,
        );
        let target: u32 = actor_idx(actor_ids, call.target);
        let damage_cap: Option<i32> = if is_cap_known(Some(call.instance.damage_cap)) {
            Some(call.instance.damage_cap)
        } else {
            None
        };
        let stun_value = stun_value_for_event(&action, call.instance.stun_value);
        let event = report_damage(
            actors,
            DamageIndices { source: indices.0, parent: indices.1, target },
            call.instance.damage,
            call.instance.flags,
            action,
            stun_value,
            damage_cap,
        );
        self.tx.send(Message::DamageEvent(event));
    }
}

/// Damage over time that was applied.
#[derive(Clone, Copy, Debug, PartialEq, Eq, Structural)]
pub struct DotHit {
    pub source: usize,
    pub target: usize,
    pub damage: i32,
}

/// The damage that a result of damage over time tells, if it is any.
pub open spec fn dot_damage(value: Float32) -> Option<i32> {
    if value.finite() && (Float32 { bits: 0 }).below(value) && value.rounded() > 0 {
        Some(value.rounded() as i32)
    } else {
        None
    }
}

/// The damage that a result of damage over time tells, if it is any.
pub fn dot_damage_of(value: Float32) -> (damage: Option<i32>)
    ensures
        damage == dot_damage(value),
{
    if !value.is_finite() || !Float32::zero().lt(value) {
        return None;
    }
    let damage: i32 = value.round_to_i32();
    if damage <= 0 {
        return None;
    }
    Some(damage)
}

/// The damage that stands in a result of damage over time.
pub open spec fn dot_damage_at(reads: ReadsModel, result: usize) -> Lookup<Option<i32>> {
    if result + DOT_DAMAGE_OFFSET > usize::MAX {
        Lookup::Done(None)
    } else {
        match half_lookup(reads, (result + DOT_DAMAGE_OFFSET) as usize) {
            Lookup::Needs(query) => Lookup::Needs(query),
            Lookup::Done(Some(bits)) => Lookup::Done(dot_damage(Float32 { bits })),
            Lookup::Done(None) => Lookup::Done(None),
        }
    }
}

pub const DOT_TARGET_OFFSET: usize = 0x18;

pub const DOT_SOURCE_OFFSET: usize = 0x30;

pub const DOT_DAMAGE_OFFSET: usize = 0x10;

/// The damage over time that was applied, if it was any.
pub open spec fn dot_hit(reads: ReadsModel, dot_instance: usize, result: usize) -> Lookup<Option<DotHit>> {
    if dot_instance == 0 || result == 0 {
        Lookup::Done(None)
    } else {
        match parent_at(reads, dot_instance, DOT_TARGET_OFFSET) {
            Lookup::Needs(query) => Lookup::Needs(query),
            Lookup::Done(None) => Lookup::Done(None),
            Lookup::Done(Some(target)) => match parent_at(reads, dot_instance, DOT_SOURCE_OFFSET) {
                Lookup::Needs(query) => Lookup::Needs(query),
                Lookup::Done(None) => Lookup::Done(None),
                Lookup::Done(Some(source)) => match dot_damage_at(reads, result) {
                    Lookup::Needs(query) => Lookup::Needs(query),
                    Lookup::Done(None) => Lookup::Done(None),
                    Lookup::Done(Some(damage)) => Lookup::Done(
                        Some(DotHit { source, target, damage }),
                    ),
                },
            },
        }
    }
}

fn locate_dot(reads: &ProcessReads, dot_instance: usize, result: usize) -> (hit: Lookup<Option<DotHit>>)
    ensures
        hit == dot_hit(reads@, dot_instance, result),
{
    if dot_instance == 0 || result == 0 {
        return Lookup::Done(None);
    }
    let target: usize = match parent_specified_instance_at(reads, dot_instance, DOT_TARGET_OFFSET) {
        Lookup::Needs(query) => {
            return Lookup::Needs(query);
        },
        Lookup::Done(None) => {
            return Lookup::Done(None);
        },
        Lookup::Done(Some(target)) => target,
    };
    let source: usize = match parent_specified_instance_at(reads, dot_instance, DOT_SOURCE_OFFSET) {
        Lookup::Needs(query) => {
            return Lookup::Needs(query);
        },
        Lookup::Done(None) => {
            return Lookup::Done(None);
        },
        Lookup::Done(Some(source)) => source,
    };
    let address: usize = match result.checked_add(DOT_DAMAGE_OFFSET) {
        Some(address) => address,
        None => {
            return Lookup::Done(None);
        },
    };
    match reads.half(address) {
        Lookup::Needs(query) => Lookup::Needs(query),
        Lookup::Done(None) => Lookup::Done(None),
        Lookup::Done(Some(bits)) => match dot_damage_of(Float32::from_bits(bits)) {
            Some(damage) => Lookup::Done(Some(DotHit { source, target, damage })),
            None => Lookup::Done(None),
        },
    }
}

/// The damage over time that was applied, and who it comes from and goes to.
pub open spec fn dot_and_actors(reads: ReadsModel, dot_instance: usize, result: usize) -> Lookup<
    Option<(DotHit, DamageActors)>,
> {
    match dot_hit(reads, dot_instance, result) {
        Lookup::Needs(query) => Lookup::Needs(query),
        Lookup::Done(None) => Lookup::Done(None),
        Lookup::Done(Some(hit)) => match actors_of(reads, hit.source, hit.target) {
            Lookup::Needs(query) => Lookup::Needs(query),
            Lookup::Done(actors) => Lookup::Done(Some((hit, actors))),
        },
    }
}

/// The numbers of actors once both ends of damage over time have one.
pub open spec fn dot_ids(ids: ActorIdsModel, hit: DotHit, actors: DamageActors) -> ActorIdsModel {
    let both = ids_with(ids_with(ids, hit.source), hit.target);
    match actors.parent {
        Some((_, parent)) => ids_with(both, parent),
        None => both,
    }
}

/// Damage over time as it is reported.
pub open spec fn dot_event(
    ids: ActorIdsModel,
    hit: DotHit,
    actors: DamageActors,
    dot_id: u32,
) -> DamageEvent {
    let with_source = ids_with(ids, hit.source);
    let both = ids_with(with_source, hit.target);
    reported_damage(
        actors,
        DamageIndices {
            source: id_of(ids, hit.source),
            parent: match actors.parent {
                Some((_, parent)) => id_of(both, parent),
                None => id_of(ids, hit.source),
            },
            target: id_of(with_source, hit.target),
        },
        hit.damage,
        0,
        ActionType::DamageOverTime(dot_id),
        None,
        None,
    )
}

/// The message that reports damage of poison.
pub open spec fn poison_message(ids: ActorIdsModel, hit: DotHit, actors: DamageActors) -> Message {
    Message::DamageEvent(dot_event(ids, hit, actors, POISON_DOT_ID))
}

/// The message that reports damage of burning.
pub open spec fn burn_message(ids: ActorIdsModel, hit: DotHit, actors: DamageActors) -> Message {
    Message::DamageEvent(dot_event(ids, hit, actors, BURN_DOT_ID))
}

/// Called when the game applies damage over time.
#[derive(Debug)]
pub struct OnProcessDotHook {
    pub tx: Outbox,
}

impl OnProcessDotHook {
    /// A hook that sends its messages through `tx`.
    pub fn new(tx: Outbox) -> (hook: Self)
        ensures
            hook.tx == tx,
    {
        OnProcessDotHook { tx }
    }

    /// Reports damage over time, unless there is none.
    pub fn emit_dot_event(
        &mut self,
        actor_ids: &mut ActorIds,
        reads: &ProcessReads,
        dot_instance: usize,
        result: usize,
        dot_id: u32,
    ) -> (done: Lookup<()>)
        ensures
            match dot_and_actors(reads@, dot_instance, result) {
                Lookup::Needs(query) => done == Lookup::<()>::Needs(query) && final(self).tx@ == old(
                    self).tx@ && final(actor_ids)@ == old(actor_ids)@,
                Lookup::Done(None) => done == Lookup::Done(()) && final(self).tx@ == old(self).tx@
                    && final(actor_ids)@ == old(actor_ids)@,
                Lookup::Done(Some((hit, actors))) => done == Lookup::Done(()) && final(self).tx@
                    == old(self).tx@.push(
                    Message::DamageEvent(dot_event(old(actor_ids)@, hit, actors, dot_id)),
                ) && final(actor_ids)@ == dot_ids(old(actor_ids)@, hit, actors),
            },
    {
        let hit: DotHit = match locate_dot(reads, dot_instance, result) {
            Lookup::Needs(query) => {
                return Lookup::Needs(query);
            },
            Lookup::Done(None) => {
                return Lookup::Done(());
            },
            Lookup::Done(Some(hit)) => hit,
        };
        let actors: DamageActors = match damage_actors(reads, hit.source, hit.target) {
            Lookup::Needs(query) => {
                return Lookup::Needs(query);
            },
            Lookup::Done(actors) => actors,
        };
        let source: u32 = actor_idx(actor_ids, hit.source);
        let target: u32 = actor_idx(actor_ids, hit.target);
        let parent: u32 = match actors.parent {
            Some((_, parent)) => actor_idx(actor_ids, parent),
            None => source,
        };
        let event = report_damage(
            &actors,
            DamageIndices { source, parent, target },
            hit.damage,
            0,
            ActionType::DamageOverTime(dot_id),
            None,
            None,
        );
        self.tx.send(Message::DamageEvent(event));
        Lookup::Done(())
    }

    /// Reports damage of poison, unless there is none.
    pub fn run_poison(
        &mut self,
        actor_ids: &mut ActorIds,
        reads: &ProcessReads,
        dot_instance: usize,
        result: usize,
    ) -> (done: Lookup<()>)
        ensures
            match dot_and_actors(reads@, dot_instance, result) {
                Lookup::Needs(query) => done == Lookup::<()>::Needs(query) && final(self).tx@ == old(
                    self).tx@ && final(actor_ids)@ == old(actor_ids)@,
                Lookup::Done(None) => done == Lookup::Done(()) && final(self).tx@ == old(self).tx@
                    && final(actor_ids)@ == old(actor_ids)@,
                Lookup::Done(Some((hit, actors))) => done == Lookup::Done(()) && final(self).tx@
                    == old(self).tx@.push(poison_message(old(actor_ids)@, hit, actors)) && final(actor_ids)@ == dot_ids(old(actor_ids)@, hit, actors),
            },
    {
        self.emit_dot_event(actor_ids, reads, dot_instance, result, POISON_DOT_ID)
    }

    /// Reports damage of burning, unless there is none.
    pub fn run_burn(
        &mut self,
        actor_ids: &mut ActorIds,
        reads: &ProcessReads,
        dot_instance: usize,
        result: usize,
    ) -> (done: Lookup<()>)
        ensures
            match dot_and_actors(reads@, dot_instance, result) {
                Lookup::Needs(query) => done == Lookup::<()>::Needs(query) && final(self).tx@ == old(
                    self).tx@ && final(actor_ids)@ == old(actor_ids)@,
                Lookup::Done(None) => done == Lookup::Done(()) && final(self).tx@ == old(self).tx@
                    && final(actor_ids)@ == old(actor_ids)@,
                Lookup::Done(Some((hit, actors))) => done == Lookup::Done(()) && final(self).tx@
                    == old(self).tx@.push(burn_message(old(actor_ids)@, hit, actors)) && final(actor_ids)@ == dot_ids(old(actor_ids)@, hit, actors),
            },
    {
        self.emit_dot_event(actor_ids, reads, dot_instance, result, BURN_DOT_ID)
    }
}

} // verus!
