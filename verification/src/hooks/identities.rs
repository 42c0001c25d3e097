//! Who is taken for the player of an actor, and what is told of it.

use vstd::prelude::*;

use crate::hooks::equipment::{overmasteries_in, stats_in, weapon_in, ActorBody, MasterTraitEffects};
use crate::hooks::ffi::{TextPlace, VBuffer};
use crate::hooks::player::{
    buffered_name, caps_known, caps_known_of, changes_mapping, changes_session, equipment_marker,
    equipment_missing, equipment_to_report, identity_in, identity_refreshed, identity_stored,
    name_in, name_place, online_in, other_players, player_to_report, reports_equipment,
    reports_player, slot_shown, store_with, worth_caching, ActorHead, ActorMarker, CachesModel,
    EquipmentMarker, EquipmentModel, IdentityModel, PlayerSnapshot, StoreModel,
};
use crate::protocol::{PlayerEquipmentEvent, PlayerIdentityEvent, Sigil};

verus! {

/// A name has 256 bytes at most, which its buffer, of 4096 bytes at most, must be able to
/// hold, and it stands somewhere.
pub proof fn law_names_are_located(buffer: VBuffer)
    ensures
        name_place(buffer) is Some <==> buffer.used_size <= 256 && buffer.used_size
            <= buffer.max_size && buffer.max_size <= 4096 && buffer.place() != TextPlace::At(0),
        name_place(buffer) matches Some(place) ==> place == buffer.place(),
{
}

/// No name holds a zero byte.
pub proof fn law_names_hold_no_zero(text: Seq<u8>, i: int)
    requires
        0 <= i < text.len(),
        text[i] == 0,
    ensures
        name_in(text) is None,
{
    assert(text.contains(0u8));
}

/// Whether a key is one that the game gives to a player.
pub open spec fn is_key(player_key: u32) -> bool {
    player_key != 0 && player_key != 0x887A_E0B0
}

/// A player in one of the first four states plays on this machine, in the next two it plays
/// online; there are no other states.
pub proof fn law_states_tell_who_plays_online(state: u32)
    ensures
        online_in(state) == Some(false) <==> state < 4,
        online_in(state) == Some(true) <==> state == 4 || state == 5,
        online_in(state) is None <==> state > 5,
{
}

/// Whether a snapshot shows a player: it stands in one of the four party slots, and has a
/// name to display.
pub open spec fn shows_player(snapshot: PlayerSnapshot) -> bool {
    snapshot.party_index < 4 && (snapshot.display_name matches Some(name) && name@ != Seq::<
        char,
    >::empty())
}

/// What a snapshot shows of a player is taken as it stands; a character name that could not
/// be read is empty.
pub proof fn law_snapshots_show_players(snapshot: PlayerSnapshot, is_online: bool)
    ensures
        identity_in(snapshot, is_online) is Some <==> shows_player(snapshot),
        identity_in(snapshot, is_online) matches Some(identity) ==> {
            &&& identity.party_index == snapshot.party_index
            &&& identity.is_online == is_online
            &&& identity.display_name == snapshot.display_name->0@
            &&& snapshot.character_name matches Some(name) ==> identity.character_name == name@
            &&& snapshot.character_name is None ==> identity.character_name.len() == 0
        },
        slot_shown(snapshot.party_index) is Some <==> snapshot.party_index < 4,
        slot_shown(snapshot.party_index) matches Some(slot) ==> slot == snapshot.party_index,
{
    if let Some(name) = snapshot.display_name {
        if name@.len() == 0 {
            assert(name@ == Seq::<char>::empty());
        }
    }
}

/// The player on this machine and those that play online are kept; the others of the party
/// are led by the machine, and are not.
pub proof fn law_who_is_kept(
    caches: CachesModel,
    player_key: u32,
    player_state: u32,
    snapshot: PlayerSnapshot,
)
    ensures
        is_key(player_key) && player_state <= 5 && shows_player(snapshot) && (snapshot.party_index
            == 0 || player_state >= 4) ==> {
            let after = identity_refreshed(caches, player_key, player_state, Some(&snapshot));
            &&& after.identities.by_key.contains_key(player_key)
            &&& Some(after.identities.by_key[player_key]) == identity_in(snapshot, player_state >= 4)
            &&& after.identities.active_key_by_party.contains_key(snapshot.party_index as u8)
            &&& after.identities.active_key_by_party[snapshot.party_index as u8] == player_key
            &&& snapshot.party_index == 0 ==> after.identities.local_player_key == Some(player_key)
            &&& snapshot.party_index != 0 ==> after.identities.local_player_key
                == caches.identities.local_player_key
        },
        !(is_key(player_key) && player_state <= 5 && shows_player(snapshot) && (snapshot.party_index
            == 0 || player_state >= 4)) ==> identity_refreshed(
            caches,
            player_key,
            player_state,
            Some(&snapshot),
        ) == caches,
        identity_refreshed(caches, player_key, player_state, None) == caches,
{
    law_snapshots_show_players(snapshot, true);
    law_snapshots_show_players(snapshot, false);
    law_states_tell_who_plays_online(player_state);
}

/// Which identities are worth keeping.
pub proof fn law_worth_keeping(identity: IdentityModel)
    ensures
        worth_caching(identity) <==> (identity.party_index != 0 ==> identity.is_online),
{
}

/// The sigils of a player are kept with its slot, if it showed any; else those that were
/// known stay, unless another local player has taken over.
pub proof fn law_sigils_are_kept(
    caches: CachesModel,
    player_key: u32,
    identity: IdentityModel,
    sigils: Seq<Sigil>,
    other: u32,
)
    ensures
        ({
            let after = identity_stored(caches, player_key, identity, sigils);
            let takes_over = identity.party_index == 0 && (caches.identities.local_player_key matches
                Some(local) && local != player_key);
            &&& sigils.len() > 0 ==> after.equipment.contains_key(player_key)
                && after.equipment[player_key].sigils == sigils
                && after.equipment[player_key].party_index == identity.party_index
            &&& sigils.len() == 0 || other != player_key ==> (after.equipment.contains_key(other)
                <==> !takes_over && caches.equipment.contains_key(other))
            &&& (sigils.len() == 0 || other != player_key) && after.equipment.contains_key(other)
                ==> after.equipment[other] == caches.equipment[other]
        }),
{
}

/// Where another player takes over on this machine, everybody else is forgotten; else
/// everybody stays, and leaves no slot but one that is taken.
pub proof fn law_who_is_forgotten(
    store: StoreModel,
    player_key: u32,
    identity: IdentityModel,
    other: u32,
    party: u8,
)
    requires
        other != player_key,
    ensures
        ({
            let after = store_with(store, player_key, identity);
            let takes_over = identity.party_index == 0 && (store.local_player_key matches Some(local)
                && local != player_key);
            &&& changes_session(store, player_key, identity) == takes_over
            &&& after.by_key.contains_key(other) <==> !takes_over && store.by_key.contains_key(other)
            &&& after.by_key.contains_key(other) ==> after.by_key[other] == store.by_key[other]
            &&& party != identity.party_index ==> (after.active_key_by_party.contains_key(party)
                <==> !takes_over && store.active_key_by_party.contains_key(party)
                && store.active_key_by_party[party] != player_key)
            &&& party != identity.party_index && after.active_key_by_party.contains_key(party)
                ==> after.active_key_by_party[party] == store.active_key_by_party[party]
        }),
{
}

/// Whether a player is known as it is shown, in the slot it is shown in.
pub open spec fn known_as_shown(store: StoreModel, player_key: u32, identity: IdentityModel) -> bool {
    &&& store.by_key.contains_key(player_key)
    &&& store.by_key[player_key].character_name == identity.character_name
    &&& store.by_key[player_key].display_name == identity.display_name
    &&& store.by_key[player_key].party_index == identity.party_index
    &&& store.by_key[player_key].is_online == identity.is_online
    &&& store.active_key_by_party.contains_key(identity.party_index)
    &&& store.active_key_by_party[identity.party_index] == player_key
    &&& identity.party_index == 0 ==> store.local_player_key is None || store.local_player_key == Some(
        player_key,
    )
}

proof fn lemma_others_stay(markers: Seq<EquipmentMarker>, player_key: u32, marker: EquipmentMarker)
    ensures
        other_players(markers, player_key).contains(marker) <==> markers.contains(marker)
            && marker.player_key != player_key,
    decreases markers.len(),
{
    reveal(Seq::filter);
    let left = other_players(markers, player_key);
    if markers.len() > 0 {
        let before = markers.drop_last();
        let earlier = other_players(before, player_key);
        lemma_others_stay(before, player_key, marker);
        assert(markers == before.push(markers.last()));
        assert(left == if markers.last().player_key != player_key {
            earlier.push(markers.last())
        } else {
            earlier
        });
        lemma_pushed(before, markers.last(), marker);
        lemma_pushed(earlier, markers.last(), marker);
    }
}

proof fn lemma_pushed(markers: Seq<EquipmentMarker>, last: EquipmentMarker, marker: EquipmentMarker)
    ensures
        markers.push(last).contains(marker) <==> markers.contains(marker) || marker == last,
{
    let after = markers.push(last);
    assert(after[markers.len() as int] == last);
    if markers.contains(marker) {
        let k = choose|k: int| 0 <= k < markers.len() && markers[k] == marker;
        assert(after[k] == marker);
    }
}

/// A player that is known as it is shown changes what was told of nobody, but that it has
/// other sigils has its own equipment told again. Any other news has everything told again.
pub proof fn law_what_is_told_again(
    caches: CachesModel,
    player_key: u32,
    identity: IdentityModel,
    sigils: Seq<Sigil>,
    marker: EquipmentMarker,
)
    ensures
        ({
            let after = identity_stored(caches, player_key, identity, sigils);
            let known = known_as_shown(caches.identities, player_key, identity);
            let news = sigils.len() > 0 && !(caches.equipment.contains_key(player_key)
                && caches.equipment[player_key].sigils == sigils
                && caches.equipment[player_key].party_index == identity.party_index);
            &&& changes_mapping(caches.identities, player_key, identity) == !known
            &&& !known ==> after.actor_keys.len() == 0 && after.equipment_actors.len() == 0
            &&& known ==> after.actor_keys == caches.actor_keys
            &&& known && !news ==> after.equipment_actors == caches.equipment_actors
            &&& known && news ==> (after.equipment_actors.contains(marker)
                <==> caches.equipment_actors.contains(marker) && marker.player_key != player_key)
        }),
{
    let shown = EquipmentModel { party_index: identity.party_index, sigils };
    if caches.equipment.contains_key(player_key) {
        let before = caches.equipment[player_key];
        if before.sigils == sigils && before.party_index == identity.party_index {
            assert(before == shown);
        }
    }
    if caches.identities.by_key.contains_key(player_key) {
        let before = caches.identities.by_key[player_key];
        if known_as_shown(caches.identities, player_key, identity) {
            assert(before == identity);
        }
    }
    lemma_others_stay(caches.equipment_actors, player_key, marker);
}

/// Whether an actor is that of a human player with a key, in a party slot.
pub open spec fn is_played_by(actor: usize, head: ActorHead, player_key: u32, party: u8) -> bool {
    &&& actor != 0
    &&& head.party_index == Some(party as u32)
    &&& party < 4
    &&& head.ai_controlled == Some(0u32)
    &&& head.player_key == Some(player_key)
    &&& is_key(player_key)
}

/// Who plays an actor is told if the player with its key was seen in its slot, and it was
/// not told yet of this actor as this character.
pub proof fn law_who_is_told(
    caches: CachesModel,
    actor: usize,
    head: ActorHead,
    character_type: u32,
    player_key: u32,
    party: u8,
)
    requires
        is_played_by(actor, head, player_key, party),
    ensures
        ({
            let marker = ActorMarker { actor, player_key, character_type, party_index: party };
            let seen = caches.identities.by_key.contains_key(player_key)
                && caches.identities.by_key[player_key].party_index == party;
            &&& player_to_report(caches, actor, head, character_type) is Some <==> seen
                && !caches.actor_keys.contains(marker)
            &&& player_to_report(caches, actor, head, character_type) matches Some((identity, noted))
                ==> identity == caches.identities.by_key[player_key] && noted == marker
        }),
{
}

/// Of an actor that no human plays, nobody is told to play it.
pub proof fn law_nobody_is_told(
    caches: CachesModel,
    actor: usize,
    head: ActorHead,
    character_type: u32,
)
    requires
        forall|player_key: u32, party: u8| !is_played_by(actor, head, player_key, party),
    ensures
        player_to_report(caches, actor, head, character_type) is None,
{
    if let (Some(party), Some(player_key)) = (head.party_index, head.player_key) {
        if party < 4 {
            assert(!is_played_by(actor, head, player_key, party as u8));
        }
    }
}

/// A player is told by its names, its slot, and whether it plays online, as they were seen.
pub proof fn law_players_are_told_as_seen(
    event: PlayerIdentityEvent,
    identity: IdentityModel,
    character_type: u32,
    actor_index: u32,
)
    requires
        reports_player(event, identity, character_type, actor_index),
    ensures
        event.character_name@ == identity.character_name,
        event.display_name@ == identity.display_name,
        event.party_index == identity.party_index,
        event.is_online == identity.is_online,
        event.character_type == character_type,
        event.actor_index == actor_index,
{
}

/// Whether an actor stands in a party slot and has the key of a player, whoever leads it.
pub open spec fn is_led_for(actor: usize, head: ActorHead, player_key: u32, party: u8) -> bool {
    &&& actor != 0
    &&& head.party_index == Some(party as u32)
    &&& party < 4
    &&& head.ai_controlled == Some(0u32) || head.ai_controlled == Some(1u32)
    &&& head.player_key == Some(player_key)
    &&& is_key(player_key)
}

/// The equipment of an actor is missing until it was told under its key and slot; of an actor
/// without either, none ever is.
pub proof fn law_what_equipment_is_missing(
    caches: CachesModel,
    actor: usize,
    head: ActorHead,
    player_key: u32,
    party: u8,
)
    ensures
        is_led_for(actor, head, player_key, party) ==> equipment_missing(caches, actor, head)
            == !caches.equipment_actors.contains(
            EquipmentMarker { actor, player_key, party_index: party },
        ) && equipment_marker(actor, head) == Some(
            EquipmentMarker { actor, player_key, party_index: party },
        ),
        (forall|key: u32, slot: u8| !is_led_for(actor, head, key, slot)) ==> !equipment_missing(
            caches,
            actor,
            head,
        ),
{
    if let (Some(slot), Some(key)) = (head.party_index, head.player_key) {
        if slot < 4 {
            assert(slot as u8 as u32 == slot);
            if forall|key: u32, slot: u8| !is_led_for(actor, head, key, slot) {
                assert(!is_led_for(actor, head, key, slot as u8));
            }
        }
    }
}

/// What an actor has equipped is told as it was read, with the sigils that its player was
/// seen with in its slot. Another human's actor counts as online.
pub proof fn law_equipment_is_told_as_read(
    event: PlayerEquipmentEvent,
    caches: CachesModel,
    marker: EquipmentMarker,
    machine: bool,
    body: ActorBody,
    character_type: u32,
    actor_index: u32,
)
    requires
        reports_equipment(event, caches, marker, machine, body, character_type, actor_index),
    ensures
        caches.equipment.contains_key(marker.player_key)
            && caches.equipment[marker.player_key].party_index == marker.party_index
            ==> event.sigils@ == caches.equipment[marker.player_key].sigils,
        !caches.equipment.contains_key(marker.player_key)
            || caches.equipment[marker.player_key].party_index != marker.party_index
            ==> event.sigils@.len() == 0,
        event.weapon_info == weapon_in(body.weapon@),
        event.player_stats == stats_in(body.stats@),
        event.overmastery_info is None <==> overmasteries_in(body.overmasteries@) is None,
        event.overmastery_info matches Some(info) ==> Some(info.overmasteries@) == overmasteries_in(
            body.overmasteries@,
        ),
        event.character_type == character_type,
        event.party_index == marker.party_index,
        event.actor_index == actor_index,
        event.is_online <==> !machine && marker.party_index > 0,
{
}

/// The equipment of an actor is told as soon as any part of it is known.
pub proof fn law_when_equipment_is_told(
    caches: CachesModel,
    actor: usize,
    head: ActorHead,
    body: ActorBody,
    character_type: u32,
    effects: MasterTraitEffects,
)
    requires
        equipment_missing(caches, actor, head),
    ensures
        weapon_in(body.weapon@) is Some || stats_in(body.stats@) is Some || overmasteries_in(
            body.overmasteries@,
        ) is Some ==> equipment_to_report(caches, actor, head, body, character_type, effects),
        (equipment_marker(actor, head) matches Some(marker) && caches.equipment.contains_key(
            marker.player_key,
        ) && caches.equipment[marker.player_key].party_index == marker.party_index
            && caches.equipment[marker.player_key].sigils.len() > 0) ==> equipment_to_report(
            caches,
            actor,
            head,
            body,
            character_type,
            effects,
        ),
{
}

/// Damage caps are known of the player on this machine, and of whom the machine leads; of
/// nobody else, and of nobody whose slot or leader is not known.
pub proof fn law_whose_caps_are_known(party: Option<u8>, machine: Option<bool>)
    ensures
        caps_known(party, machine) <==> party is Some && machine is Some && (party == Some(0u8)
            || machine == Some(true)),
{
}

/// No caps are known of no actor; of an actor they are as its slot and its leader say.
pub proof fn law_whose_caps_count(actor: usize, head: ActorHead)
    ensures
        caps_known_of(actor, head) <==> actor != 0 && (head.party_index matches Some(party)
            && party < 4) && (head.ai_controlled == Some(1u32) || head.ai_controlled == Some(0u32)
            && head.party_index == Some(0u32)),
{
}

/// A name is the first bytes at its place, as many as its buffer says are used. There is none
/// if fewer were read.
pub proof fn law_names_have_their_length(buffer: VBuffer, text: Seq<u8>, name: Seq<u8>, more: Seq<u8>)
    requires
        name_place(buffer) is Some,
    ensures
        text == name + more && name.len() == buffer.used_size ==> buffered_name(buffer, text)
            == name_in(name),
        text.len() < buffer.used_size ==> buffered_name(buffer, text) is None,
{
    if text == name + more && name.len() == buffer.used_size {
        assert(text.take(buffer.used_size as int) == name);
    }
}

} // verus!
