//! What is told of the hits, the deaths and the quests that the game shows.

use vstd::arithmetic::power2::{lemma_pow2_pos, pow2};
use vstd::prelude::*;

use crate::constants::character_of;
use crate::float32::{law_constants, Float32};
use crate::hooks::damage::{
    action_of, actors_of, burn_message, did_damage, dot_and_actors, dot_damage, dot_event, dot_hit,
    dot_ids, hit_message, ids_with_source, parent_index, poison_message, DamageActors, DamageCall,
    DamageIndices, DotHit,
};
use crate::hooks::death::{
    actor_place, count_place, death_delta, death_message, death_to_report, DeathCall,
};
use crate::hooks::ffi::{DamageInstance, QuestState};
use crate::hooks::quest::{
    battle_end_message, completion_message, quest_in, quest_state_place, snapshot_of, QuestSnapshot,
};
use crate::hooks::{id_of, parent_and_type, parent_instance, ActorIdsModel, Lookup, ReadsModel};
use crate::protocol::{ActionType, Message};

verus! {

/// Whether the pointer at `address` was read, and points to `to`.
pub open spec fn points(reads: ReadsModel, address: int, to: usize) -> bool {
    exists|at: usize|
        at == address && #[trigger] reads.words.contains_key(at) && reads.words[at] == Some(to) && to
            != 0
}

/// Whether the place `address` is known to hold no pointer.
pub open spec fn points_nowhere(reads: ReadsModel, address: int) -> bool {
    ||| address > usize::MAX
    ||| exists|at: usize|
        at == address && #[trigger] reads.words.contains_key(at) && (reads.words[at] is None
            || reads.words[at] == Some(0usize))
}

/// Whether the 32-bit word at `address` was read, and is `half`.
pub open spec fn holds(reads: ReadsModel, address: int, half: u32) -> bool {
    exists|at: usize|
        at == address && #[trigger] reads.halves.contains_key(at) && reads.halves[at] == Some(half)
}

/// Whether the actor at an address is known to be of a type.
pub open spec fn is_of_type(reads: ReadsModel, actor: usize, actor_type: u32) -> bool {
    reads.types.contains_key(actor) && reads.types[actor] == actor_type
}

/// How far into an actor of a type that fights for another the entity of that other stands.
pub open spec fn keeps_owner_at(actor_type: u32, offset: int) -> bool {
    ||| actor_type == 0x2AF6_78E8 && offset == 0xE58
    ||| actor_type == 0x8364_C8BC && offset == 0x4E8
    ||| actor_type == 0xC9F4_5042 && offset == 0x558
    ||| actor_type == 0x5B1A_B457 && offset == 0x4E0
    ||| actor_type == 0xF575_5C0E && offset == 0x1CA80
}

/// An actor that fights for another belongs to the actor that its entity points to, by way of
/// the specified instance of that entity.
pub proof fn law_pets_belong_to_owners(
    reads: ReadsModel,
    actor_type: u32,
    actor: usize,
    offset: int,
    entity: usize,
    owner: usize,
    owner_type: u32,
)
    requires
        keeps_owner_at(actor_type, offset),
        points(reads, actor + offset, entity),
        points(reads, entity + 0x70, owner),
        is_of_type(reads, owner, owner_type),
    ensures
        parent_instance(reads, actor_type, actor) == Lookup::Done(Some(owner)),
        parent_and_type(reads, actor_type, actor) == Lookup::Done(Some((owner_type, owner))),
{
}

/// Every other actor stands for itself.
pub proof fn law_others_stand_for_themselves(reads: ReadsModel, actor_type: u32, actor: usize)
    requires
        forall|offset: int| !keeps_owner_at(actor_type, offset),
    ensures
        parent_instance(reads, actor_type, actor) == Lookup::Done(None::<usize>),
        parent_and_type(reads, actor_type, actor) == Lookup::Done(None::<(u32, usize)>),
{
    assert(!keeps_owner_at(actor_type, 0xE58));
    assert(!keeps_owner_at(actor_type, 0x4E8));
    assert(!keeps_owner_at(actor_type, 0x558));
    assert(!keeps_owner_at(actor_type, 0x4E0));
    assert(!keeps_owner_at(actor_type, 0x1CA80));
}

/// An actor that fights for another, but whose entity or its instance is missing, stands for
/// itself too.
pub proof fn law_lost_pets_stand_for_themselves(
    reads: ReadsModel,
    actor_type: u32,
    actor: usize,
    offset: int,
    entity: usize,
)
    requires
        keeps_owner_at(actor_type, offset),
        points_nowhere(reads, actor + offset) || points(reads, actor + offset, entity)
            && points_nowhere(reads, entity + 0x70),
    ensures
        parent_instance(reads, actor_type, actor) == Lookup::Done(None::<usize>),
        parent_and_type(reads, actor_type, actor) == Lookup::Done(None::<(u32, usize)>),
{
}

/// The source and the target of a hit are of the types that the game says they are.
pub proof fn law_both_ends_are_typed(reads: ReadsModel, source: usize, target: usize)
    ensures
        actors_of(reads, source, target) matches Lookup::Done(actors) ==> {
            &&& is_of_type(reads, source, actors.source_type)
            &&& is_of_type(reads, target, actors.target_type)
            &&& parent_and_type(reads, actors.source_type, source) == Lookup::Done(actors.parent)
        },
        reads.types.contains_key(source) && reads.types.contains_key(target) && parent_and_type(
            reads,
            reads.types[source],
            source,
        ) is Done ==> actors_of(reads, source, target) is Done,
{
}

/// Whether bit `bit` of the flags of a hit is set.
pub open spec fn has_flag(flags: u64, bit: u64) -> bool {
    (flags >> bit) & 1 == 1
}

/// What a hit comes from is told by its flags: bit 7 or 50 make it a link attack, else bit
/// 13 or 14 a skybound art, else bit 15 supplementary damage of the action; without any of
/// them it is the action itself.
pub proof fn law_flags_tell_the_action(flags: u64, action_id: u32)
    ensures
        action_of(flags, action_id) == (if has_flag(flags, 7) || has_flag(flags, 50) {
            ActionType::LinkAttack
        } else if has_flag(flags, 13) || has_flag(flags, 14) {
            ActionType::SBA
        } else if has_flag(flags, 15) {
            ActionType::SupplementaryDamage(action_id)
        } else {
            ActionType::Normal(action_id)
        }),
{
    assert((0x0004_0000_0000_0080u64 & flags != 0) == ((flags >> 7) & 1 == 1 || (flags >> 50) & 1
        == 1)) by (bit_vector);
    assert((0x6000u64 & flags != 0) == ((flags >> 13) & 1 == 1 || (flags >> 14) & 1 == 1))
        by (bit_vector);
    assert((0x8000u64 & flags != 0) == ((flags >> 15) & 1 == 1)) by (bit_vector);
}

/// A hit is told as it was: between the actors it went from and to, with the damage, the
/// flags and the action that the game gave it. What does not belong to another belongs to
/// itself.
pub proof fn law_hits_are_told_as_they_were(
    actors: DamageActors,
    indices: DamageIndices,
    instance: DamageInstance,
)
    ensures
        hit_message(actors, indices, instance) matches Message::DamageEvent(event) && ({
            &&& event.source.index == indices.source
            &&& event.source.actor_type == actors.source_type
            &&& event.source.parent_index == indices.parent
            &&& actors.parent is None ==> event.source.parent_actor_type == actors.source_type
            &&& actors.parent matches Some((parent_type, _)) ==> event.source.parent_actor_type
                == parent_type
            &&& event.target.index == indices.target
            &&& event.target.parent_index == indices.target
            &&& event.target.actor_type == actors.target_type
            &&& event.target.parent_actor_type == actors.target_type
            &&& event.damage == instance.damage
            &&& event.flags == instance.flags
            &&& event.action_id == action_of(instance.flags, instance.action_id)
            &&& event.attack_rate is None
            &&& event.damage_cap == (if instance.damage_cap > 0 && instance.damage_cap
                < 99_999_999 {
                Some(instance.damage_cap)
            } else {
                None
            })
            &&& event.stun_value is Some ==> event.stun_value == Some(instance.stun_value) && 0
                < instance.stun_value.units() <= 1_000_000 * pow2(149) && !(
            event.action_id is SupplementaryDamage)
            &&& event.stun_value is None && !(event.action_id is SupplementaryDamage)
                && instance.stun_value.finite() ==> instance.stun_value.units() <= 0
                || instance.stun_value.units() > 1_000_000 * pow2(149)
        }),
{
    law_constants();
}

/// A call did damage exactly if it has a source, was carried out, and took something.
pub proof fn law_what_did_damage(call: DamageCall)
    ensures
        did_damage(call) <==> call.source_entity > 0 && call.original_value > 0
            && call.instance.damage >= 1,
{
}

/// The actor that a hit belongs to has the number that it keeps afterwards: that of the
/// owner, where there is one, and that of the source otherwise.
pub proof fn law_owners_are_numbered(ids: ActorIdsModel, source: usize, actors: DamageActors)
    ensures
        ({
            let after = ids_with_source(ids, source, actors);
            &&& after.by_instance.contains_key(source)
            &&& after.by_instance[source] == id_of(ids, source)
            &&& after.by_instance.contains_key(actors.owner(source))
            &&& after.by_instance[actors.owner(source)] == parent_index(ids, source, actors)
            &&& actors.parent matches Some((parent_type, parent)) ==> actors.owner(source) == parent
                && actors.owner_type() == parent_type
            &&& actors.parent is None ==> actors.owner(source) == source && actors.owner_type()
                == actors.source_type
            &&& forall|other: usize| #[trigger]
                after.by_instance.contains_key(other) ==> ids.by_instance.contains_key(other) || other
                    == source || other == actors.owner(source)
            &&& forall|other: usize| #[trigger]
                ids.by_instance.contains_key(other) ==> after.by_instance[other]
                    == ids.by_instance[other]
        }),
{
}

/// Damage over time is found where the game keeps it: its target and its source by way of
/// their entities, and the damage in the result.
pub proof fn law_damage_over_time_is_found(
    reads: ReadsModel,
    dot_instance: usize,
    result: usize,
    target_entity: usize,
    target: usize,
    source_entity: usize,
    source: usize,
    bits: u32,
    damage: i32,
)
    requires
        dot_instance != 0,
        result != 0,
        points(reads, dot_instance + 0x18, target_entity),
        points(reads, target_entity + 0x70, target),
        points(reads, dot_instance + 0x30, source_entity),
        points(reads, source_entity + 0x70, source),
        holds(reads, result + 0x10, bits),
        dot_damage(Float32 { bits }) == Some(damage),
    ensures
        dot_hit(reads, dot_instance, result) == Lookup::Done(Some(DotHit { source, target, damage })),
        dot_and_actors(reads, dot_instance, result) matches Lookup::Done(found) ==> (found matches
            Some((hit, actors)) && hit == (DotHit { source, target, damage }) && actors_of(
            reads,
            source,
            target,
        ) == Lookup::Done(actors)),
{
}

/// Damage over time is told as the nearest whole number, halves counting up; what rounds to
/// nothing, or is no number, is not told.
pub proof fn law_damage_over_time_is_rounded(value: Float32)
    ensures
        dot_damage(value) matches Some(damage) ==> {
            &&& value.finite()
            &&& damage >= 1
            &&& damage < i32::MAX ==> (2 * damage - 1) * pow2(149) <= 2 * value.units() < (2 * damage
                + 1) * pow2(149)
        },
        value.finite() && 2 * value.units() >= pow2(149) ==> dot_damage(value) is Some,
{
    let one = pow2(149) as int;
    lemma_pow2_pos(149);
    let units = value.units();
    assert((Float32 { bits: 0 }).units() == 0);
    let whole = (2 * units + one) / (2 * one);
    vstd::arithmetic::div_mod::lemma_fundamental_div_mod(2 * units + one, 2 * one);
    let rest = (2 * units + one) % (2 * one);
    assert(0 <= rest < 2 * one);
    assert(2 * units + one == (2 * one) * whole + rest);
    assert((2 * one) * whole == 2 * whole * one) by (nonlinear_arith);
    assert((2 * whole - 1) * one == 2 * whole * one - one) by (nonlinear_arith);
    assert((2 * whole + 1) * one == 2 * whole * one + one) by (nonlinear_arith);
    if 2 * units >= one {
        assert(whole >= 1) by (nonlinear_arith)
            requires
                2 * units + one == (2 * one) * whole + rest,
                2 * units >= one,
                rest < 2 * one,
                one > 0,
        ;
    }
}

/// Damage over time is told as a hit of its own kind, without flags, stun or cap, between
/// actors that are numbered in the order source, target, owner.
pub proof fn law_damage_over_time_is_told(
    ids: ActorIdsModel,
    hit: DotHit,
    actors: DamageActors,
    dot_id: u32,
)
    ensures
        ({
            let event = dot_event(ids, hit, actors, dot_id);
            let after = dot_ids(ids, hit, actors);
            &&& event.action_id == ActionType::DamageOverTime(dot_id)
            &&& event.damage == hit.damage
            &&& event.flags == 0
            &&& event.attack_rate is None
            &&& event.stun_value is None
            &&& event.damage_cap is None
            &&& event.source.actor_type == actors.source_type
            &&& event.source.parent_actor_type == actors.owner_type()
            &&& event.target.actor_type == actors.target_type
            &&& event.target.parent_actor_type == actors.target_type
            &&& event.target.parent_index == event.target.index
            &&& after.by_instance.contains_key(hit.source)
            &&& after.by_instance.contains_key(hit.target)
            &&& after.by_instance.contains_key(actors.owner(hit.source))
            &&& event.source.index == after.by_instance[hit.source]
            &&& event.target.index == after.by_instance[hit.target]
            &&& event.source.parent_index == after.by_instance[actors.owner(hit.source)]
        }),
        poison_message(ids, hit, actors) matches Message::DamageEvent(event) && event == dot_event(
            ids,
            hit,
            actors,
            0,
        ),
        burn_message(ids, hit, actors) matches Message::DamageEvent(event) && event == dot_event(
            ids,
            hit,
            actors,
            1,
        ),
{
}

/// A death is told of a player whose count went up, by as much as it did, and of the actor
/// that stands for the player.
pub proof fn law_deaths_are_told(
    reads: ReadsModel,
    actor: usize,
    before: u32,
    after: u32,
    actor_type: u32,
    owner: Option<usize>,
)
    requires
        actor != 0,
        is_of_type(reads, actor, actor_type),
        !(character_of(actor_type) is Unknown),
        parent_instance(reads, actor_type, actor) == Lookup::Done(owner),
        before < after,
    ensures
        death_to_report(
            reads,
            DeathCall { actor: Some(actor), count_before: Some(before), count_after: Some(after) },
        ) == Lookup::Done(
            Some(
                (
                    match owner {
                        Some(owner) => owner,
                        None => actor,
                    },
                    (after - before) as u32,
                ),
            ),
        ),
        death_delta(before, after) matches Some(delta) && before + delta == after,
{
}

/// No death is told where something could not be read, the count did not go up, or the actor
/// is no player.
pub proof fn law_no_other_deaths_are_told(reads: ReadsModel, call: DeathCall)
    requires
        call.actor is None || call.actor == Some(0usize) || call.count_before is None
            || call.count_after is None || call.count_after->0 <= call.count_before->0
            || reads.types.contains_key(call.actor->0) && character_of(
            reads.types[call.actor->0],
        ) is Unknown,
    ensures
        death_to_report(reads, call) == Lookup::Done(None::<(usize, u32)>),
{
}

/// A death is told as that of an actor by its number, as so many more deaths. The actor and
/// the count of the owner of a count are kept in it.
pub proof fn law_deaths_are_told_as_more(ids: ActorIdsModel, actor: usize, delta: u32, owner: usize)
    ensures
        death_message(ids, actor, delta) matches Message::OnDeathEvent(event) && event.actor_index
            == id_of(ids, actor) && event.death_counter == delta && event.is_delta,
        owner + 0x10 <= usize::MAX ==> (actor_place(owner) matches Some(at) && at == owner + 0x10),
        owner + 0x104 <= usize::MAX ==> (count_place(owner) matches Some(at) && at == owner + 0x104),
        owner + 0x10 > usize::MAX ==> actor_place(owner) is None,
        owner + 0x104 > usize::MAX ==> count_place(owner) is None,
{
}

/// The quest in progress is found where the game keeps it, and told if it can be right: its
/// id has three bytes and is not zero, and it has lasted a week at most, and no longer than
/// its limit, if it has one.
pub proof fn law_quests_are_found(
    reads: ReadsModel,
    slot: usize,
    singleton: usize,
    quest_id: u32,
    elapsed: u32,
    limit: u32,
)
    requires
        slot != 0,
        points(reads, slot as int, singleton),
        holds(reads, singleton + 0x238, quest_id),
        holds(reads, singleton + 0xAC8, elapsed),
        holds(reads, singleton + 0xAD0, limit),
    ensures
        quest_in(reads, slot) == Lookup::Done(
            if 1 <= quest_id < 0x100_0000 && elapsed <= 7 * 24 * 60 * 60 && (limit > 0 ==> elapsed
                <= limit) {
                Some(QuestSnapshot { quest_id, elapsed_time_in_secs: elapsed })
            } else {
                None
            },
        ),
        quest_in(reads, slot) == Lookup::Done(snapshot_of(quest_id, elapsed, limit)),
{
}

/// The end of a battle completes the quest that was in progress, if one was.
pub proof fn law_battles_end(quest: Option<QuestSnapshot>)
    ensures
        battle_end_message(quest) is OnBattleEnd <==> quest is None,
        quest matches Some(quest) ==> (battle_end_message(Some(quest)) matches
            Message::OnQuestComplete(event) && event.quest_id == quest.quest_id
            && event.elapsed_time_in_secs == quest.elapsed_time_in_secs),
{
}

/// The result screen tells which quest was completed, and after how long; the state of the
/// quest is kept in the object that is loaded with it.
pub proof fn law_results_tell_the_quest(state: QuestState, object: usize)
    ensures
        completion_message(state) matches Message::OnQuestComplete(event) && event.quest_id
            == state.quest_id && event.elapsed_time_in_secs == state.elapsed_time,
        object + 0x1D8 <= usize::MAX ==> (quest_state_place(object) matches Some(at) && at == object
            + 0x1D8),
        object + 0x1D8 > usize::MAX ==> quest_state_place(object) is None,
{
}

} // verus!
