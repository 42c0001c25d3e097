//! Whose hit it is, and which damage caps count, told from the log and the party.

use vstd::prelude::*;

use crate::encounter::PlayerDataModel;
use crate::parser::attribution::{
    adjusted, cap_enabled, deaths_after, is_only_id, is_player, observed_parent, owner_of,
    parents_in, parents_with,
};
use crate::parser::laws::deaths_in;
use crate::parser::uses::answers_for;
use crate::protocol::{DamageEvent, Message};

verus! {

/// Whether a hit shows that Id number `owner` owns transformation number `transformation`.
pub open spec fn hit_shows_owner(hit: DamageEvent, transformation: u32, owner: u32) -> bool {
    &&& hit.source.actor_type == 0xF575_5C0E
    &&& hit.source.parent_actor_type == 0x8056_ABCD
    &&& hit.source.index == transformation
    &&& hit.source.parent_index == owner
}

/// Whether report `i` shows whom a transformation belongs to.
pub open spec fn shows_owner(log: Seq<(i64, Message)>, i: int, transformation: u32) -> bool {
    0 <= i < log.len() && (log[i].1 matches Message::DamageEvent(hit) && hit_shows_owner(
        hit,
        transformation,
        hit.source.parent_index,
    ))
}

/// A transformation has an owner exactly if some hit of the log shows one, and it is the one
/// that the first such hit names. `at` is that hit.
pub proof fn law_owner_is_first_shown(log: Seq<(i64, Message)>, transformation: u32) -> (at: int)
    ensures
        parents_in(log).contains_key(transformation) ==> {
            &&& shows_owner(log, at, transformation)
            &&& parents_in(log)[transformation] == log[at].1->DamageEvent_0.source.parent_index
            &&& forall|i: int| 0 <= i < at ==> !#[trigger] shows_owner(log, i, transformation)
        },
        !parents_in(log).contains_key(transformation) ==> forall|i: int| !#[trigger]
            shows_owner(log, i, transformation),
    decreases log.len(),
{
    if log.len() == 0 {
        0
    } else {
        let before = log.drop_last();
        let at = law_owner_is_first_shown(before, transformation);
        assert forall|i: int| i != log.len() - 1 implies #[trigger] shows_owner(
            log,
            i,
            transformation,
        ) == shows_owner(before, i, transformation) by {}
        if parents_in(before).contains_key(transformation) {
            assert(shows_owner(log, at, transformation));
            at
        } else {
            log.len() - 1
        }
    }
}

/// An actor is answered for by its known owner, or else by itself.
pub proof fn law_owners_answer(parents: Map<u32, u32>, index: u32, actor: u32)
    ensures
        owner_of(parents, index) == actor <==> answers_for(parents, actor, index),
{
}

/// What was known of owners stays, and a hit that shows an owner where none was known is
/// learned from; nothing else is.
pub proof fn law_owners_are_learned_once(
    parents: Map<u32, u32>,
    hit: DamageEvent,
    transformation: u32,
    owner: u32,
)
    ensures
        ({
            let after = parents_with(parents, observed_parent(hit));
            &&& parents.contains_key(transformation) ==> after.contains_key(transformation)
                && after[transformation] == parents[transformation]
            &&& !parents.contains_key(transformation) ==> (after.contains_key(transformation)
                && after[transformation] == owner <==> hit_shows_owner(hit, transformation, owner))
        }),
{
}

/// Whether slot `i` holds Id, and no other slot does.
pub open spec fn lone_id(players: Seq<Option<PlayerDataModel>>, i: int) -> bool {
    &&& 0 <= i < players.len()
    &&& forall|k: int|
        0 <= k < players.len() ==> (k == i <==> ((#[trigger] players[k]) is Some
            && players[k]->0.character_type is Pl1900))
}

/// Whether a hit counts for `actor`. The hit of a transformation counts for its known owner,
/// else for the Id that it names, else for the only Id in the party; any other hit, or where
/// nothing of this tells, for the actor that it names.
pub open spec fn counts_for(
    hit: DamageEvent,
    players: Seq<Option<PlayerDataModel>>,
    parents: Map<u32, u32>,
    actor: u32,
) -> bool {
    if hit.source.actor_type == 0xF575_5C0E && parents.dom().contains(hit.source.index) {
        actor == parents[hit.source.index]
    } else if hit.source.actor_type == 0xF575_5C0E && hit.source.parent_actor_type != 0x8056_ABCD
        && exists|i: int| lone_id(players, i) {
        exists|i: int| #[trigger] lone_id(players, i) && players[i]->0.actor_index == actor
    } else {
        actor == hit.source.parent_index
    }
}

/// Whether the caps of an actor can be trusted: it stands in the first slot, or in another
/// that no online player holds.
pub open spec fn is_trusted(players: Seq<Option<PlayerDataModel>>, actor: u32) -> bool {
    exists|i: int|
        0 <= i < players.len() && (#[trigger] players[i]) is Some && players[i]->0.actor_index
            == actor && (i == 0 || !players[i]->0.is_online)
}

proof fn lemma_lone_id(players: Seq<Option<PlayerDataModel>>, i: int)
    ensures
        lone_id(players, i) == is_only_id(players, i),
{
    if is_only_id(players, i) {
        assert forall|k: int| 0 <= k < players.len() implies (k == i <==> ((
        #[trigger] players[k]) is Some && players[k]->0.character_type is Pl1900)) by {
            assert(crate::parser::attribution::is_id(players[k]) ==> k == i);
        }
    }
    if lone_id(players, i) {
        assert(players[i] is Some);
        assert forall|k: int|
            0 <= k < players.len() && crate::parser::attribution::is_id(
                #[trigger] players[k],
            ) implies k == i by {}
    }
}

/// A hit as it counts is the reported one but for whom it counts for and its cap: it keeps its
/// damage, target, action, stun and flags and its own source. It keeps its cap exactly if the
/// caps of the actor that it counts for can be trusted. Where it goes to an Id, it goes to it
/// as an Id.
pub proof fn law_hits_count_as_reported(
    hit: DamageEvent,
    players: Seq<Option<PlayerDataModel>>,
    parents: Map<u32, u32>,
)
    ensures
        ({
            let counted = adjusted(hit, players, parents);
            let actor = counted.source.parent_index;
            &&& counts_for(hit, players, parents, actor)
            &&& counted.damage == hit.damage
            &&& counted.target == hit.target
            &&& counted.action_id == hit.action_id
            &&& counted.flags == hit.flags
            &&& counted.stun_value == hit.stun_value
            &&& counted.attack_rate == hit.attack_rate
            &&& counted.source.index == hit.source.index
            &&& counted.source.actor_type == hit.source.actor_type
            &&& is_trusted(players, actor) ==> counted.damage_cap == hit.damage_cap
            &&& !is_trusted(players, actor) ==> counted.damage_cap is None
            &&& counted.source.parent_actor_type == hit.source.parent_actor_type
                || counted.source.parent_actor_type == 0x8056_ABCD && hit.source.actor_type
                == 0xF575_5C0E
            &&& hit.source.actor_type == 0xF575_5C0E && parents.dom().contains(hit.source.index)
                ==> counted.source.parent_actor_type == 0x8056_ABCD
            &&& hit.source.actor_type == 0xF575_5C0E && (exists|i: int| lone_id(players, i))
                ==> counted.source.parent_actor_type == 0x8056_ABCD
        }),
{
    assert forall|i: int| #[trigger] lone_id(players, i) == is_only_id(players, i) by {
        lemma_lone_id(players, i);
    }
    let counted = adjusted(hit, players, parents);
    let actor = counted.source.parent_index;
    if exists|i: int| is_only_id(players, i) {
        let i = choose|i: int| is_only_id(players, i);
        lemma_lone_id(players, i);
        assert(lone_id(players, i));
    }
    if exists|i: int| lone_id(players, i) {
        let i = choose|i: int| lone_id(players, i);
        lemma_lone_id(players, i);
        assert(is_only_id(players, i));
    }
    assert(is_trusted(players, actor) == cap_enabled(players, actor)) by {
        if is_trusted(players, actor) {
            let i = choose|i: int|
                0 <= i < players.len() && (#[trigger] players[i]) is Some
                    && players[i]->0.actor_index == actor && (i == 0 || !players[i]->0.is_online);
            assert(is_player(players[i], actor));
        }
        if cap_enabled(players, actor) {
            let i = choose|i: int|
                0 <= i < players.len() && is_player(#[trigger] players[i], actor) && (i == 0
                    || !players[i]->0.is_online);
            assert(players[i] is Some);
        }
    }
}

/// A hit counts for one actor.
pub proof fn law_hits_count_once(
    hit: DamageEvent,
    players: Seq<Option<PlayerDataModel>>,
    parents: Map<u32, u32>,
    a: u32,
    b: u32,
)
    requires
        counts_for(hit, players, parents, a),
        counts_for(hit, players, parents, b),
    ensures
        a == b,
{
    if exists|i: int| lone_id(players, i) {
        let i = choose|i: int| lone_id(players, i);
        assert forall|k: int| #[trigger] lone_id(players, k) implies k == i by {
            assert(players[k] is Some);
        }
    }
}

/// The count of deaths of an actor; zero if none was reported.
pub open spec fn deaths_of(deaths: Map<u32, u32>, actor: u32) -> int {
    if deaths.dom().contains(actor) {
        deaths[actor] as int
    } else {
        0
    }
}

/// A death is counted for its actor alone: new ones are added, up to the largest number there
/// is; a total replaces a smaller one.
pub proof fn law_deaths_are_counted(
    deaths: Map<u32, u32>,
    actor: u32,
    counter: u32,
    is_delta: bool,
    other: u32,
)
    ensures
        ({
            let after = deaths_after(deaths, actor, counter, is_delta);
            let sum = deaths_of(deaths, actor) + counter;
            &&& after.dom().contains(actor)
            &&& is_delta && sum <= u32::MAX ==> deaths_of(after, actor) == sum
            &&& is_delta && sum > u32::MAX ==> deaths_of(after, actor) == u32::MAX
            &&& !is_delta && counter >= deaths_of(deaths, actor) ==> deaths_of(after, actor)
                == counter
            &&& !is_delta && counter < deaths_of(deaths, actor) ==> deaths_of(after, actor)
                == deaths_of(deaths, actor)
            &&& other != actor ==> after.dom().contains(other) == deaths.dom().contains(other)
                && deaths_of(after, other) == deaths_of(deaths, other)
        }),
{
}

/// The deaths that the reports of a log add for an actor, where all of them are of new ones.
pub open spec fn deaths_added(log: Seq<(i64, Message)>, parents: Map<u32, u32>, actor: u32) -> int
    decreases log.len(),
{
    if log.len() == 0 {
        0
    } else {
        deaths_added(log.drop_last(), parents, actor) + match log.last().1 {
            Message::OnDeathEvent(event) => if answers_for(parents, actor, event.actor_index) {
                event.death_counter as int
            } else {
                0
            },
            _ => 0,
        }
    }
}

/// Where a log tells of new deaths only, the count of an actor is their sum, as long as it
/// fits: those of the actors that it answers for, and no others.
pub proof fn law_new_deaths_add_up(log: Seq<(i64, Message)>, parents: Map<u32, u32>, actor: u32)
    requires
        forall|i: int|
            0 <= i < log.len() ==> ((#[trigger] log[i]).1 matches Message::OnDeathEvent(event)
                ==> event.is_delta),
        deaths_added(log, parents, actor) <= u32::MAX,
    ensures
        deaths_of(deaths_in(log, parents), actor) == deaths_added(log, parents, actor) >= 0,
    decreases log.len(),
{
    if log.len() > 0 {
        let before = log.drop_last();
        assert forall|i: int| 0 <= i < before.len() implies ((#[trigger] before[i]).1 matches
            Message::OnDeathEvent(event) ==> event.is_delta) by {
            assert(before[i] == log[i]);
        }
        assert(log[log.len() - 1] == log.last());
        law_new_deaths_add_up(before, parents, actor);
    }
}

} // verus!
