//! What is made of the calls that the game makes.
//!
//! Nothing here touches the memory of the game. Addresses are numbers, and what stands
//! at them is handed in: a function that needs to know more than it was told says which
//! place it needs, and is asked again once that place has been read.

pub mod damage;
pub mod death;
pub mod equipment;
pub mod ffi;
pub mod gear;
pub mod identities;
pub mod laws;
pub mod player;
pub mod quest;
pub mod sightings;

use std::collections::HashMap;
use vstd::prelude::*;

use crate::protocol::Message;

verus! {

/// Something to be read from the game.
#[derive(Clone, Copy, Debug, PartialEq, Eq, Structural)]
pub enum Query {
    /// The pointer-sized word at an address.
    Word(usize),
    /// The 32-bit word at an address.
    Half(usize),
    /// The type of the actor at an address.
    ActorType(usize),
}

/// The answer of a function that may not have been told enough.
#[derive(Clone, Copy, Debug, PartialEq, Eq)]
pub enum Lookup<T> {
    /// This has to be read first.
    Needs(Query),
    /// This is the answer.
    Done(T),
}

/// What has been read from the game so far. A place that cannot be read holds nothing.
#[derive(Debug)]
pub struct ProcessReads {
    pub words: HashMap<usize, Option<usize>>,
    pub halves: HashMap<usize, Option<u32>>,
    pub types: HashMap<usize, u32>,
}

/// What a `ProcessReads` says.
#[verifier::ext_equal]
pub struct ReadsModel {
    pub words: Map<usize, Option<usize>>,
    pub halves: Map<usize, Option<u32>>,
    pub types: Map<usize, u32>,
}

impl View for ProcessReads {
    type V = ReadsModel;

    open spec fn view(&self) -> ReadsModel {
        ReadsModel { words: self.words@, halves: self.halves@, types: self.types@ }
    }
}

impl ReadsModel {
    /// Whether something has been read already.
    pub open spec fn knows(self, query: Query) -> bool {
        match query {
            Query::Word(address) => self.words.contains_key(address),
            Query::Half(address) => self.halves.contains_key(address),
            Query::ActorType(actor) => self.types.contains_key(actor),
        }
    }
}

impl ProcessReads {
    /// Nothing has been read.
    pub fn new() -> (reads: Self)
        ensures
            reads@ == (ReadsModel { words: Map::empty(), halves: Map::empty(), types: Map::empty() }),
    {
        ProcessReads { words: HashMap::new(), halves: HashMap::new(), types: HashMap::new() }
    }

    /// Notes the pointer-sized word at an address.
    pub fn note_word(&mut self, address: usize, word: Option<usize>)
        ensures
            final(self)@ == (ReadsModel { words: old(self)@.words.insert(address, word), ..old(self)@ }),
    {
        broadcast use vstd::std_specs::hash::group_hash_axioms;

        self.words.insert(address, word);
    }

    /// Notes the 32-bit word at an address.
    pub fn note_half(&mut self, address: usize, half: Option<u32>)
        ensures
            final(self)@ == (ReadsModel {
                halves: old(self)@.halves.insert(address, half),
                ..old(self)@
            }),
    {
        broadcast use vstd::std_specs::hash::group_hash_axioms;

        self.halves.insert(address, half);
    }

    /// Notes the type of the actor at an address.
    pub fn note_type(&mut self, actor: usize, actor_type: u32)
        ensures
            final(self)@ == (ReadsModel {
                types: old(self)@.types.insert(actor, actor_type),
                ..old(self)@
            }),
    {
        broadcast use vstd::std_specs::hash::group_hash_axioms;

        self.types.insert(actor, actor_type);
    }

    fn word(&self, address: usize) -> (answer: Lookup<Option<usize>>)
        ensures
            answer == word_lookup(self@, address),
    {
        broadcast use vstd::std_specs::hash::group_hash_axioms;

        match self.words.get(&address) {
            Some(word) => Lookup::Done(*word),
            None => Lookup::Needs(Query::Word(address)),
        }
    }

    /// The pointer that stands `offset` behind `base`.
    pub(crate) fn pointer(&self, base: usize, offset: usize) -> (pointer: Lookup<Option<usize>>)
        ensures
            pointer == pointer_at(self@, base, offset),
    {
        match base.checked_add(offset) {
            Some(address) => match self.word(address) {
                Lookup::Needs(query) => Lookup::Needs(query),
                Lookup::Done(Some(pointer)) => Lookup::Done(
                    if pointer == 0 {
                        None
                    } else {
                        Some(pointer)
                    },
                ),
                Lookup::Done(None) => Lookup::Done(None),
            },
            None => Lookup::Done(None),
        }
    }

    /// The 32-bit word at an address.
    pub(crate) fn half(&self, address: usize) -> (answer: Lookup<Option<u32>>)
        ensures
            answer == half_lookup(self@, address),
    {
        broadcast use vstd::std_specs::hash::group_hash_axioms;

        match self.halves.get(&address) {
            Some(half) => Lookup::Done(*half),
            None => Lookup::Needs(Query::Half(address)),
        }
    }

    /// The type of the actor at an address.
    pub fn actor_type(&self, actor: usize) -> (answer: Lookup<u32>)
        ensures
            answer == type_lookup(self@, actor),
    {
        broadcast use vstd::std_specs::hash::group_hash_axioms;

        match self.types.get(&actor) {
            Some(actor_type) => Lookup::Done(*actor_type),
            None => Lookup::Needs(Query::ActorType(actor)),
        }
    }
}

/// The pointer-sized word at an address.
pub open spec fn word_lookup(reads: ReadsModel, address: usize) -> Lookup<Option<usize>> {
    if reads.words.contains_key(address) {
        Lookup::Done(reads.words[address])
    } else {
        Lookup::Needs(Query::Word(address))
    }
}

/// The 32-bit word at an address.
pub open spec fn half_lookup(reads: ReadsModel, address: usize) -> Lookup<Option<u32>> {
    if reads.halves.contains_key(address) {
        Lookup::Done(reads.halves[address])
    } else {
        Lookup::Needs(Query::Half(address))
    }
}

/// The type of the actor at an address.
pub open spec fn type_lookup(reads: ReadsModel, actor: usize) -> Lookup<u32> {
    if reads.types.contains_key(actor) {
        Lookup::Done(reads.types[actor])
    } else {
        Lookup::Needs(Query::ActorType(actor))
    }
}

/// Messages on their way to the parser.
#[derive(Debug)]
pub struct Outbox {
    pub messages: Vec<Message>,
}

impl View for Outbox {
    type V = Seq<Message>;

    open spec fn view(&self) -> Seq<Message> {
        self.messages@
    }
}

impl Outbox {
    /// No message.
    pub fn new() -> (outbox: Self)
        ensures
            outbox@ == Seq::<Message>::empty(),
    {
        Outbox { messages: Vec::new() }
    }

    /// Sends a message.
    pub fn send(&mut self, message: Message)
        ensures
            final(self)@ == old(self)@.push(message),
    {
        self.messages.push(message);
    }

    /// Takes out the messages, oldest first.
    pub fn drain(&mut self) -> (messages: Vec<Message>)
        ensures
            messages@ == old(self)@,
            final(self)@ == Seq::<Message>::empty(),
    {
        let mut messages: Vec<Message> = Vec::new();
        std::mem::swap(&mut messages, &mut self.messages);
        messages
    }
}

/// The numbers given to actors, by the address of the actor.
#[derive(Debug)]
pub struct ActorIds {
    by_instance: HashMap<usize, u32>,
    next_id: u32,
}

/// What an `ActorIds` says.
#[verifier::ext_equal]
pub struct ActorIdsModel {
    pub by_instance: Map<usize, u32>,
    pub next_id: u32,
}

impl View for ActorIds {
    type V = ActorIdsModel;

    closed spec fn view(&self) -> ActorIdsModel {
        ActorIdsModel { by_instance: self.by_instance@, next_id: self.next_id }
    }
}

/// The numbers after actor `actor` was looked up: a new actor gets the next one.
pub open spec fn ids_with(ids: ActorIdsModel, actor: usize) -> ActorIdsModel {
    if ids.by_instance.contains_key(actor) {
        ids
    } else {
        ActorIdsModel {
            by_instance: ids.by_instance.insert(actor, ids.next_id),
            next_id: if ids.next_id == u32::MAX {
                0
            } else {
                (ids.next_id + 1) as u32
            },
        }
    }
}

/// The number of actor `actor`.
pub open spec fn id_of(ids: ActorIdsModel, actor: usize) -> u32 {
    ids_with(ids, actor).by_instance[actor]
}

impl ActorIds {
    /// No actor has a number.
    pub fn new() -> (ids: Self)
        ensures
            ids@ == (ActorIdsModel { by_instance: Map::empty(), next_id: 0 }),
    {
        ActorIds { by_instance: HashMap::new(), next_id: 0 }
    }
}

/// The number of the actor at an address. An actor that has none gets the next one.
pub fn actor_idx(actor_ids: &mut ActorIds, actor: usize) -> (id: u32)
    ensures
        final(actor_ids)@ == ids_with(old(actor_ids)@, actor),
        id == id_of(old(actor_ids)@, actor),
{
    broadcast use vstd::std_specs::hash::group_hash_axioms;

    if let Some(id) = actor_ids.by_instance.get(&actor) {
        return *id;
    }
    let id: u32 = actor_ids.next_id;
    actor_ids.next_id = actor_ids.next_id.wrapping_add(1);
    actor_ids.by_instance.insert(actor, id);
    id
}

/// Where an actor of the given type keeps the actor it belongs to, if it belongs to one.
pub open spec fn parent_offset(source_type_id: u32) -> Option<usize> {
    match source_type_id {
        0x2AF6_78E8 => Some(0xE58),
        0x8364_C8BC => Some(0x4E8),
        0xC9F4_5042 => Some(0x558),
        0x5B1A_B457 => Some(0x4E0),
        0xF575_5C0E => Some(0x1CA80),
        _ => None,
    }
}

/// Where an actor of the given type keeps the actor it belongs to, if it belongs to one.
pub fn source_parent_offset(source_type_id: u32) -> (offset: Option<usize>)
    ensures
        offset == parent_offset(source_type_id),
{
    match source_type_id {
        0x2AF6_78E8 => Some(0xE58),
        0x8364_C8BC => Some(0x4E8),
        0xC9F4_5042 => Some(0x558),
        0x5B1A_B457 => Some(0x4E0),
        0xF575_5C0E => Some(0x1CA80),
        _ => None,
    }
}

/// How far into an entity the pointer to its specified instance stands.
pub const SPECIFIED_INSTANCE_OFFSET: usize = 0x70;

/// The pointer that stands `offset` behind `base`; nothing where there is none, or a null
/// pointer.
pub open spec fn pointer_at(reads: ReadsModel, base: usize, offset: usize) -> Lookup<Option<usize>> {
    if base + offset > usize::MAX {
        Lookup::Done(None)
    } else {
        match word_lookup(reads, (base + offset) as usize) {
            Lookup::Needs(query) => Lookup::Needs(query),
            Lookup::Done(Some(pointer)) => Lookup::Done(
                if pointer == 0 {
                    None
                } else {
                    Some(pointer)
                },
            ),
            Lookup::Done(None) => Lookup::Done(None),
        }
    }
}

/// The parent of an actor: the entity at `offset` into the actor, if there is one, points
/// to it.
pub open spec fn parent_at(reads: ReadsModel, actor: usize, offset: usize) -> Lookup<Option<usize>> {
    match pointer_at(reads, actor, offset) {
        Lookup::Needs(query) => Lookup::Needs(query),
        Lookup::Done(Some(entity)) => pointer_at(reads, entity, SPECIFIED_INSTANCE_OFFSET),
        Lookup::Done(None) => Lookup::Done(None),
    }
}

/// The parent of an actor of the given type.
pub open spec fn parent_instance(reads: ReadsModel, source_type_id: u32, source: usize) -> Lookup<
    Option<usize>,
> {
    match parent_offset(source_type_id) {
        Some(offset) => parent_at(reads, source, offset),
        None => Lookup::Done(None),
    }
}

/// The specified instance of the entity that stands `offset` behind `actor`.
pub(crate) fn parent_specified_instance_at(reads: &ProcessReads, actor: usize, offset: usize) -> (parent:
    Lookup<Option<usize>>)
    ensures
        parent == parent_at(reads@, actor, offset),
{
    match reads.pointer(actor, offset) {
        Lookup::Needs(query) => Lookup::Needs(query),
        Lookup::Done(Some(entity)) => reads.pointer(entity, SPECIFIED_INSTANCE_OFFSET),
        Lookup::Done(None) => Lookup::Done(None),
    }
}

/// The actor that an actor of the given type belongs to, if it belongs to one.
pub fn get_source_parent_instance(reads: &ProcessReads, source_type_id: u32, source: usize) -> (parent:
    Lookup<Option<usize>>)
    ensures
        parent == parent_instance(reads@, source_type_id, source),
{
    match source_parent_offset(source_type_id) {
        Some(offset) => parent_specified_instance_at(reads, source, offset),
        None => Lookup::Done(None),
    }
}

/// Type and address of the actor that an actor of the given type belongs to.
pub open spec fn parent_and_type(reads: ReadsModel, source_type_id: u32, source: usize) -> Lookup<
    Option<(u32, usize)>,
> {
    match parent_instance(reads, source_type_id, source) {
        Lookup::Needs(query) => Lookup::Needs(query),
        Lookup::Done(None) => Lookup::Done(None),
        Lookup::Done(Some(parent)) => match type_lookup(reads, parent) {
            Lookup::Needs(query) => Lookup::Needs(query),
            Lookup::Done(parent_type) => Lookup::Done(Some((parent_type, parent))),
        },
    }
}

/// Type and address of the actor that an actor of the given type belongs to.
pub(crate) fn typed_source_parent(reads: &ProcessReads, source_type_id: u32, source: usize) -> (parent:
    Lookup<Option<(u32, usize)>>)
    ensures
        parent == parent_and_type(reads@, source_type_id, source),
{
    match get_source_parent_instance(reads, source_type_id, source) {
        Lookup::Needs(query) => Lookup::Needs(query),
        Lookup::Done(None) => Lookup::Done(None),
        Lookup::Done(Some(parent)) => match reads.actor_type(parent) {
            Lookup::Needs(query) => Lookup::Needs(query),
            Lookup::Done(parent_type) => Lookup::Done(Some((parent_type, parent))),
        },
    }
}

/// Type and number of the actor that an actor of the given type belongs to, if it belongs
/// to one. Its number is given out once everything is known.
pub fn get_source_parent(
    actor_ids: &mut ActorIds,
    reads: &ProcessReads,
    source_type_id: u32,
    source: usize,
) -> (parent: Lookup<Option<(u32, u32)>>)
    ensures
        match parent_and_type(reads@, source_type_id, source) {
            Lookup::Needs(query) => parent == Lookup::<Option<(u32, u32)>>::Needs(query)
                && final(actor_ids)@ == old(actor_ids)@,
            Lookup::Done(None) => parent == Lookup::<Option<(u32, u32)>>::Done(None)
                && final(actor_ids)@ == old(actor_ids)@,
            Lookup::Done(Some((parent_type, actor))) => parent == Lookup::Done(
                Some((parent_type, id_of(old(actor_ids)@, actor))),
            ) && final(actor_ids)@ == ids_with(old(actor_ids)@, actor),
        },
{
    match typed_source_parent(reads, source_type_id, source) {
        Lookup::Needs(query) => Lookup::Needs(query),
        Lookup::Done(None) => Lookup::Done(None),
        Lookup::Done(Some((parent_type, actor))) => {
            let id: u32 = actor_idx(actor_ids, actor);
            Lookup::Done(Some((parent_type, id)))
        },
    }
}

/// A step of the installation of the hooks.
#[derive(Clone, Copy, Debug, PartialEq, Eq, Structural)]
pub enum SetupStep {
    FindProcess,
    Damage,
    DamageOverTime,
    PlayerIdentity,
    BattleEnd,
    Death,
    Finished,
}

/// The hooks cannot be installed.
#[derive(Clone, Copy, Debug, PartialEq, Eq, Structural)]
pub enum SetupError {
    ProcessNotFound,
    DamageHookUnavailable,
}

/// What follows a step of the installation. Without the game or the damage hook there is
/// nothing to do; every other hook can be missing.
pub open spec fn step_after(step: SetupStep, succeeded: bool) -> Result<SetupStep, SetupError> {
    match step {
        SetupStep::FindProcess => if succeeded {
            Ok(SetupStep::Damage)
        } else {
            Err(SetupError::ProcessNotFound)
        },
        SetupStep::Damage => if succeeded {
            Ok(SetupStep::DamageOverTime)
        } else {
            Err(SetupError::DamageHookUnavailable)
        },
        SetupStep::DamageOverTime => Ok(SetupStep::PlayerIdentity),
        SetupStep::PlayerIdentity => Ok(SetupStep::BattleEnd),
        SetupStep::BattleEnd => Ok(SetupStep::Death),
        SetupStep::Death => Ok(SetupStep::Finished),
        SetupStep::Finished => Ok(SetupStep::Finished),
    }
}

/// What follows a step of the installation, which starts with `FindProcess`.
pub fn setup_hooks(step: SetupStep, succeeded: bool) -> (next: Result<SetupStep, SetupError>)
    ensures
        next == step_after(step, succeeded),
{
    match step {
        SetupStep::FindProcess => if succeeded {
            Ok(SetupStep::Damage)
        } else {
            Err(SetupError::ProcessNotFound)
        },
        SetupStep::Damage => if succeeded {
            Ok(SetupStep::DamageOverTime)
        } else {
            Err(SetupError::DamageHookUnavailable)
        },
        SetupStep::DamageOverTime => Ok(SetupStep::PlayerIdentity),
        SetupStep::PlayerIdentity => Ok(SetupStep::BattleEnd),
        SetupStep::BattleEnd => Ok(SetupStep::Death),
        SetupStep::Death => Ok(SetupStep::Finished),
        SetupStep::Finished => Ok(SetupStep::Finished),
    }
}

} // verus!
