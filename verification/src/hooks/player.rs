//! Who plays which actor.

use std::collections::HashMap;
use vstd::prelude::*;
use vstd::slice::slice_subrange;
use vstd::utf8::{decode_utf8, valid_utf8};

use crate::hooks::equipment::{
    are_master_traits, effects_of, optional_overmasteries, overmasteries_in, read_actor_master_traits,
    read_actor_overmasteries, read_actor_player_stats, read_actor_weapon_info, read_sigils,
    sigils_in, stats_in, weapon_in, ActorBody, MasterTraitEffects,
};
use crate::hooks::ffi::{SigilEntry, TextPlace, VBuffer, SIGIL_COUNT};
use crate::hooks::Outbox;
use crate::keys::keys_of;
use crate::protocol::{PlayerEquipmentEvent, PlayerIdentityEvent, Sigil};

verus! {

pub const PLAYER_IDENTITY_OFFSET: usize = 0x5E60;

pub const PLAYER_KEY_OFFSET: usize = 0x5EA8;

pub const PLAYER_STATE_OFFSET: usize = 0x5EAC;

/// The longest name of a player, in bytes.
pub const MAX_PLAYER_NAME_BYTES: u64 = 0x100;

/// The largest text buffer.
pub const MAX_TEXT_BUFFER_BYTES: u64 = 0x1000;

/// The key the game gives to nobody.
pub const INVALID_PLAYER_KEY: u32 = 0x887A_E0B0;

pub const ACTOR_PARTY_INDEX_OFFSET: usize = 0x24;

pub const ACTOR_AI_CONTROLLED_OFFSET: usize = 0x774;

pub const ACTOR_PLAYER_KEY_OFFSET: usize = 0x1AB40;

/// Whether the sizes in a text buffer can be right.
pub open spec fn reasonable_buffer(buffer: VBuffer) -> bool {
    &&& buffer.used_size <= MAX_PLAYER_NAME_BYTES
    &&& buffer.used_size <= buffer.max_size
    &&& buffer.max_size <= MAX_TEXT_BUFFER_BYTES
}

/// Where the name in a text buffer is to be found, if it can be.
pub open spec fn name_place(buffer: VBuffer) -> Option<TextPlace> {
    if reasonable_buffer(buffer) && buffer.place() != TextPlace::At(0) {
        Some(buffer.place())
    } else {
        None
    }
}

/// Where the name in a text buffer is to be found, if it can be. It has as many bytes as the
/// buffer says are used.
pub fn locate_name(buffer: &VBuffer) -> (place: Option<TextPlace>)
    ensures
        place == name_place(*buffer),
{
    if buffer.used_size > MAX_PLAYER_NAME_BYTES || buffer.max_size < buffer.used_size
        || buffer.max_size > MAX_TEXT_BUFFER_BYTES {
        return None;
    }
    match buffer.ptr() {
        TextPlace::Inline => Some(TextPlace::Inline),
        TextPlace::At(address) => if address == 0 {
            None
        } else {
            Some(TextPlace::At(address))
        },
    }
}

/// The text that `bytes` spell, if they do.
///
/// Calls `std::str::from_utf8`, which accepts exactly the well-formed UTF-8 encodings, and
/// gives the text they encode.
#[verifier::external_body]
fn utf8_text(bytes: &[u8]) -> (text: Option<&str>)
    ensures
        match text {
            Some(text) => valid_utf8(bytes@) && text@ == decode_utf8(bytes@),
            None => !valid_utf8(bytes@),
        },
{
    std::str::from_utf8(bytes).ok()
}

/// The name that `text` spells: well-formed UTF-8 without a zero byte.
pub open spec fn name_in(text: Seq<u8>) -> Option<Seq<char>> {
    if valid_utf8(text) && !text.contains(0u8) {
        Some(decode_utf8(text))
    } else {
        None
    }
}

/// What an optional text says.
pub open spec fn optional_text(text: Option<String>) -> Option<Seq<char>> {
    match text {
        Some(text) => Some(text@),
        None => None,
    }
}

/// The name in a text buffer, given the bytes at the place where it is.
pub open spec fn buffered_name(buffer: VBuffer, text: Seq<u8>) -> Option<Seq<char>> {
    if name_place(buffer) is Some && buffer.used_size <= text.len() {
        name_in(text.take(buffer.used_size as int))
    } else {
        None
    }
}

/// The name in a text buffer, given the bytes at the place where it is. It has as many bytes
/// as the buffer says are used; where fewer were read, there is none.
pub fn read_vbuffer(buffer: &VBuffer, text: &[u8]) -> (name: Option<String>)
    ensures
        optional_text(name) == buffered_name(*buffer, text@),
{
    if locate_name(buffer).is_none() || buffer.used_size > text.len() as u64 {
        return None;
    }
    let used: usize = buffer.used_size as usize;
    let name: &[u8] = slice_subrange(text, 0, used);
    assert(name@ == text@.take(buffer.used_size as int));
    let mut i: usize = 0;
    while i < name.len()
        invariant
            i <= name.len(),
            name@ == text@.take(buffer.used_size as int),
            forall|k: int| 0 <= k < i ==> name@[k] != 0,
        decreases name.len() - i,
    {
        if name[i] == 0 {
            assert(name@[i as int] == 0);
            return None;
        }
        i = i + 1;
    }
    match utf8_text(name) {
        Some(name) => Some(name.to_owned()),
        None => None,
    }
}

/// A player, as the game identifies it.
#[derive(Debug)]
pub struct StoredPlayerIdentity {
    pub character_name: String,
    pub display_name: String,
    pub party_index: u8,
    pub is_online: bool,
}

/// What a `StoredPlayerIdentity` says.
#[verifier::ext_equal]
pub struct IdentityModel {
    pub character_name: Seq<char>,
    pub display_name: Seq<char>,
    pub party_index: u8,
    pub is_online: bool,
}

impl View for StoredPlayerIdentity {
    type V = IdentityModel;

    open spec fn view(&self) -> IdentityModel {
        IdentityModel {
            character_name: self.character_name@,
            display_name: self.display_name@,
            party_index: self.party_index,
            is_online: self.is_online,
        }
    }
}

impl StoredPlayerIdentity {
    /// Another identity that says the same.
    pub fn duplicate(&self) -> (copy: Self)
        ensures
            copy@ == self@,
    {
        StoredPlayerIdentity {
            character_name: self.character_name.clone(),
            display_name: self.display_name.clone(),
            party_index: self.party_index,
            is_online: self.is_online,
        }
    }

    /// Whether two identities say the same.
    fn same(&self, other: &Self) -> (answer: bool)
        ensures
            answer == (self@ == other@),
    {
        self.character_name == other.character_name && self.display_name == other.display_name
            && self.party_index == other.party_index && self.is_online == other.is_online
    }
}

/// The identities of the players, by the key of the player.
#[derive(Debug)]
pub struct IdentityStore {
    pub by_key: HashMap<u32, StoredPlayerIdentity>,
    /// The key of the player in each party slot.
    pub active_key_by_party: HashMap<u8, u32>,
    /// The key of the local player.
    pub local_player_key: Option<u32>,
}

/// What an `IdentityStore` says.
#[verifier::ext_equal]
pub struct StoreModel {
    pub by_key: Map<u32, IdentityModel>,
    pub active_key_by_party: Map<u8, u32>,
    pub local_player_key: Option<u32>,
}

/// What the identities by key say.
pub open spec fn identities_model(by_key: Map<u32, StoredPlayerIdentity>) -> Map<u32, IdentityModel> {
    by_key.map_values(|identity: StoredPlayerIdentity| identity@)
}

impl View for IdentityStore {
    type V = StoreModel;

    open spec fn view(&self) -> StoreModel {
        StoreModel {
            by_key: identities_model(self.by_key@),
            active_key_by_party: self.active_key_by_party@,
            local_player_key: self.local_player_key,
        }
    }
}

/// What storing an identity changed.
#[derive(Clone, Copy, Debug, PartialEq, Eq, Structural)]
pub struct IdentityInsertOutcome {
    /// Whether another player stands in a slot, or is known by other details.
    pub mapping_changed: bool,
    /// Whether another local player has taken over.
    pub session_changed: bool,
    /// Whether the equipment that came with the identity can be trusted.
    pub equipment_trusted: bool,
}

/// Whether storing an identity means that another local player has taken over.
pub open spec fn changes_session(store: StoreModel, player_key: u32, identity: IdentityModel) -> bool {
    identity.party_index == 0 && store.local_player_key is Some && store.local_player_key != Some(
        player_key,
    )
}

/// What is left of a store when an identity comes in: nothing, if another local player has
/// taken over.
pub open spec fn session_of(store: StoreModel, player_key: u32, identity: IdentityModel) -> StoreModel {
    if changes_session(store, player_key, identity) {
        StoreModel {
            by_key: Map::empty(),
            active_key_by_party: Map::empty(),
            local_player_key: store.local_player_key,
        }
    } else {
        store
    }
}

/// The keys of the party slots once `player_key` stands in slot `party_index`, and in no
/// other.
pub open spec fn slots_with(active: Map<u8, u32>, player_key: u32, party_index: u8) -> Map<u8, u32> {
    Map::new(
        |party: u8| party == party_index || active.contains_key(party) && active[party] != player_key,
        |party: u8|
            if party == party_index {
                player_key
            } else {
                active[party]
            },
    )
}

/// The keys of the party slots once `player_key` stands in none but slot `party_index`.
pub open spec fn slots_left(active: Map<u8, u32>, player_key: u32, party_index: u8) -> Map<u8, u32> {
    Map::new(
        |party: u8|
            active.contains_key(party) && (party == party_index || active[party] != player_key),
        |party: u8| active[party],
    )
}

/// A store after an identity came in.
pub open spec fn store_with(store: StoreModel, player_key: u32, identity: IdentityModel) -> StoreModel {
    let session = session_of(store, player_key, identity);
    StoreModel {
        by_key: session.by_key.insert(player_key, identity),
        active_key_by_party: slots_with(
            session.active_key_by_party,
            player_key,
            identity.party_index,
        ),
        local_player_key: if identity.party_index == 0 {
            Some(player_key)
        } else {
            store.local_player_key
        },
    }
}

/// Whether an identity that comes in changes who stands where, or by what details it is
/// known.
pub open spec fn changes_mapping(store: StoreModel, player_key: u32, identity: IdentityModel) -> bool {
    let session = session_of(store, player_key, identity);
    let slot = identity.party_index;
    ||| changes_session(store, player_key, identity)
    ||| !(session.by_key.contains_key(player_key) && session.by_key[player_key] == identity)
    ||| !(session.active_key_by_party.contains_key(slot) && session.active_key_by_party[slot]
        == player_key)
}

impl IdentityStore {
    /// Nobody is known.
    pub fn new() -> (store: Self)
        ensures
            store@ == (StoreModel {
                by_key: Map::empty(),
                active_key_by_party: Map::empty(),
                local_player_key: None,
            }),
    {
        let store = IdentityStore {
            by_key: HashMap::new(),
            active_key_by_party: HashMap::new(),
            local_player_key: None,
        };
        assert(identities_model(store.by_key@) == Map::<u32, IdentityModel>::empty());
        store
    }

    /// Takes `player_key` out of every party slot but `party_index`.
    fn leave_other_slots(&mut self, player_key: u32, party_index: u8)
        ensures
            final(self)@ == (StoreModel {
                active_key_by_party: slots_left(
                    old(self)@.active_key_by_party,
                    player_key,
                    party_index,
                ),
                ..old(self)@
            }),
    {
        broadcast use vstd::std_specs::hash::group_hash_axioms;

        let parties: Vec<u8> = keys_of(&self.active_key_by_party);
        let ghost before = self.active_key_by_party@;
        let mut i: usize = 0;
        while i < parties.len()
            invariant
                i <= parties.len(),
                before == old(self).active_key_by_party@,
                self.by_key == old(self).by_key,
                self.local_player_key == old(self).local_player_key,
                parties@.no_duplicates(),
                forall|party: u8| parties@.contains(party) <==> #[trigger] before.contains_key(party),
                forall|party: u8| #[trigger]
                    self.active_key_by_party@.contains_key(party) <==> before.contains_key(party) && !(
                    party != party_index && before[party] == player_key && parties@.take(
                        i as int,
                    ).contains(party)),
                forall|party: u8| #[trigger]
                    self.active_key_by_party@.contains_key(party)
                        ==> self.active_key_by_party@[party] == before[party],
            decreases parties.len() - i,
        {
            let party: u8 = parties[i];
            let ghost earlier = self.active_key_by_party@;
            assert(parties@.contains(party));
            assert(!parties@.take(i as int).contains(party));
            assert(earlier.contains_key(party));
            if let Some(key) = self.active_key_by_party.get(&party) {
                if party != party_index && *key == player_key {
                    self.active_key_by_party.remove(&party);
                }
            }
            assert forall|other: u8|
                parties@.take(i + 1).contains(other) <==> parties@.take(i as int).contains(other)
                    || other == party by {
                if parties@.take(i as int).contains(other) {
                    let k = choose|k: int| 0 <= k < i && parties@.take(i as int)[k] == other;
                    assert(parties@.take(i + 1)[k] == other);
                }
                if other == party {
                    assert(parties@.take(i + 1)[i as int] == other);
                }
            }
            i = i + 1;
        }
        assert(parties@.take(i as int) == parties@);
        assert(self.active_key_by_party@ == slots_left(before, player_key, party_index)) by {
            assert forall|party: u8| #[trigger]
                self.active_key_by_party@.contains_key(party) <==> slots_left(
                    before,
                    player_key,
                    party_index,
                ).contains_key(party) by {
                assert(parties@.contains(party) <==> before.contains_key(party));
            }
        }
    }

    /// Stores the identity of a player.
    pub fn insert(
        &mut self,
        player_key: u32,
        identity: StoredPlayerIdentity,
        has_verified_loadout: bool,
    ) -> (outcome: IdentityInsertOutcome)
        ensures
            final(self)@ == store_with(old(self)@, player_key, identity@),
            outcome == (IdentityInsertOutcome {
                mapping_changed: changes_mapping(old(self)@, player_key, identity@),
                session_changed: changes_session(old(self)@, player_key, identity@),
                equipment_trusted: has_verified_loadout,
            }),
    {
        broadcast use vstd::std_specs::hash::group_hash_axioms;

        let party_index: u8 = identity.party_index;
        let ghost shown = identity@;
        let mut session_changed: bool = false;
        if party_index == 0 {
            if let Some(known_key) = self.local_player_key {
                session_changed = known_key != player_key;
            }
            if session_changed {
                self.by_key.clear();
                self.active_key_by_party.clear();
                assert(identities_model(self.by_key@) == Map::<u32, IdentityModel>::empty());
            }
            self.local_player_key = Some(player_key);
        }
        let ghost session = session_of(old(self)@, player_key, shown);
        assert(self@.by_key == session.by_key);
        assert(self@.active_key_by_party == session.active_key_by_party);
        self.leave_other_slots(player_key, party_index);
        let ghost left = self.active_key_by_party@;
        let previous_key: Option<u32> = self.active_key_by_party.insert(party_index, player_key);
        assert(self.active_key_by_party@ == slots_with(
            session.active_key_by_party,
            player_key,
            party_index,
        ));
        let same_key: bool = match previous_key {
            Some(key) => key == player_key,
            None => false,
        };
        let known: bool = match self.by_key.get(&player_key) {
            Some(stored) => stored.same(&identity),
            None => false,
        };
        self.by_key.insert(player_key, identity);
        assert(identities_model(self.by_key@) == session.by_key.insert(player_key, shown));
        IdentityInsertOutcome {
            mapping_changed: session_changed || !known || !same_key,
            session_changed,
            equipment_trusted: has_verified_loadout,
        }
    }
}

/// The identity of the player with a key, if it stands in the given slot.
pub open spec fn identity_at(store: StoreModel, player_key: u32, party_index: u8) -> Option<IdentityModel> {
    if store.by_key.contains_key(player_key) && store.by_key[player_key].party_index == party_index {
        Some(store.by_key[player_key])
    } else {
        None
    }
}

/// The identity of the player with a key, if it stands in the given slot.
pub fn resolve_identity(identities: &IdentityStore, player_key: u32, party_index: u8) -> (found: Option<
    (u32, StoredPlayerIdentity),
>)
    ensures
        match found {
            Some((key, identity)) => key == player_key && identity_at(
                identities@,
                player_key,
                party_index,
            ) == Some(identity@),
            None => identity_at(identities@, player_key, party_index) is None,
        },
{
    broadcast use vstd::std_specs::hash::group_hash_axioms;

    match identities.by_key.get(&player_key) {
        Some(identity) => if identity.party_index == party_index {
            Some((player_key, identity.duplicate()))
        } else {
            None
        },
        None => None,
    }
}

/// Whether a player in a given state plays online; nothing for a state that is no player's.
pub open spec fn online_in(state: u32) -> Option<bool> {
    if state <= 3 {
        Some(false)
    } else if state <= 5 {
        Some(true)
    } else {
        None
    }
}

/// Whether a player in a given state plays online; nothing for a state that is no player's.
pub fn is_online_state(state: u32) -> (online: Option<bool>)
    ensures
        online == online_in(state),
{
    match state {
        0..=3 => Some(false),
        4 | 5 => Some(true),
        _ => None,
    }
}

/// Whether an identity is worth keeping: that of the local player, or of an online player.
pub open spec fn worth_caching(identity: IdentityModel) -> bool {
    identity.party_index == 0 || identity.is_online
}

/// Whether an identity is worth keeping.
pub fn should_cache_identity(identity: &StoredPlayerIdentity) -> (answer: bool)
    ensures
        answer == worth_caching(identity@),
{
    identity.party_index == 0 || identity.is_online
}

/// What tells whose an actor is. A word that cannot be read is nothing.
#[derive(Clone, Copy, Debug, PartialEq, Eq, Structural)]
pub struct ActorHead {
    /// The word at `ACTOR_PARTY_INDEX_OFFSET`.
    pub party_index: Option<u32>,
    /// The word at `ACTOR_AI_CONTROLLED_OFFSET`.
    pub ai_controlled: Option<u32>,
    /// The word at `ACTOR_PLAYER_KEY_OFFSET`.
    pub player_key: Option<u32>,
}

impl ActorHead {
    /// The party slot of an actor, if it has one.
    pub open spec fn party(self) -> Option<u8> {
        match self.party_index {
            Some(index) => if index <= 3 {
                Some(index as u8)
            } else {
                None
            },
            None => None,
        }
    }

    /// Whether the machine controls an actor, if that is known.
    pub open spec fn machine(self) -> Option<bool> {
        match self.ai_controlled {
            Some(0) => Some(false),
            Some(1) => Some(true),
            _ => None,
        }
    }

    /// The key of the player that an actor belongs to, if it has one.
    pub open spec fn key(self) -> Option<u32> {
        match self.player_key {
            Some(key) => if key == 0 || key == INVALID_PLAYER_KEY {
                None
            } else {
                Some(key)
            },
            None => None,
        }
    }

    /// The party slot of an actor, if it has one.
    pub fn read_actor_party_index(&self) -> (party: Option<u8>)
        ensures
            party == self.party(),
    {
        match self.party_index {
            Some(index) => if index <= 3 {
                Some(index as u8)
            } else {
                None
            },
            None => None,
        }
    }

    /// Whether the machine controls an actor, if that is known.
    pub fn is_ai_controlled_actor(&self) -> (machine: Option<bool>)
        ensures
            machine == self.machine(),
    {
        match self.ai_controlled {
            Some(word) => if word == 0 {
                Some(false)
            } else if word == 1 {
                Some(true)
            } else {
                None
            },
            None => None,
        }
    }

    /// The key of the player that an actor belongs to, if it has one.
    pub fn read_actor_player_key(&self) -> (key: Option<u32>)
        ensures
            key == self.key(),
    {
        match self.player_key {
            Some(key) => if key == 0 || key == INVALID_PLAYER_KEY {
                None
            } else {
                Some(key)
            },
            None => None,
        }
    }
}

/// Whether damage caps are known of an actor in a party slot: of the local player, and of
/// those the machine controls.
pub open spec fn caps_known(party_index: Option<u8>, is_ai_controlled: Option<bool>) -> bool {
    match (party_index, is_ai_controlled) {
        (Some(party), Some(machine)) => party == 0 || machine,
        _ => false,
    }
}

/// Whether damage caps are known of an actor in a party slot.
pub fn damage_cap_enabled(party_index: Option<u8>, is_ai_controlled: Option<bool>) -> (enabled: bool)
    ensures
        enabled == caps_known(party_index, is_ai_controlled),
{
    match (party_index, is_ai_controlled) {
        (Some(party), Some(machine)) => party == 0 || machine,
        _ => false,
    }
}

/// Whether damage caps are known of the actor at an address.
pub open spec fn caps_known_of(actor: usize, head: ActorHead) -> bool {
    actor != 0 && caps_known(head.party(), head.machine())
}

/// Whether damage caps are known of the actor at an address.
pub fn damage_cap_enabled_for_actor(actor: usize, head: &ActorHead) -> (enabled: bool)
    ensures
        enabled == caps_known_of(actor, *head),
{
    if actor == 0 {
        return false;
    }
    damage_cap_enabled(head.read_actor_party_index(), head.is_ai_controlled_actor())
}

/// What the game shows of a player when it refreshes its identity.
#[derive(Debug)]
pub struct PlayerSnapshot {
    pub sigils: [SigilEntry; SIGIL_COUNT],
    pub party_index: u32,
    /// The display name, if it could be read.
    pub display_name: Option<String>,
    /// The character name, if it could be read.
    pub character_name: Option<String>,
}

/// The party slot that the game shows for a player, if it is one.
pub open spec fn slot_shown(party_index: u32) -> Option<u8> {
    if party_index <= 3 {
        Some(party_index as u8)
    } else {
        None
    }
}

/// The party slot that the game shows for a player, if it is one.
pub fn read_party_index(party_index: u32) -> (slot: Option<u8>)
    ensures
        slot == slot_shown(party_index),
{
    if party_index <= 3 {
        Some(party_index as u8)
    } else {
        None
    }
}

/// The identity that a snapshot shows: nothing without a party slot or a name to display.
pub open spec fn identity_in(snapshot: PlayerSnapshot, is_online: bool) -> Option<IdentityModel> {
    match (slot_shown(snapshot.party_index), optional_text(snapshot.display_name)) {
        (Some(party_index), Some(display_name)) => if display_name.len() > 0 {
            Some(
                IdentityModel {
                    character_name: match optional_text(snapshot.character_name) {
                        Some(name) => name,
                        None => Seq::empty(),
                    },
                    display_name,
                    party_index,
                    is_online,
                },
            )
        } else {
            None
        },
        _ => None,
    }
}

/// The identity that a snapshot shows, if it shows one.
pub fn read_player_identity(snapshot: &PlayerSnapshot, is_online: bool) -> (identity: Option<
    StoredPlayerIdentity,
>)
    ensures
        match identity {
            Some(identity) => identity_in(*snapshot, is_online) == Some(identity@),
            None => identity_in(*snapshot, is_online) is None,
        },
{
    let party_index: u8 = match read_party_index(snapshot.party_index) {
        Some(party_index) => party_index,
        None => {
            return None;
        },
    };
    let display_name: String = match &snapshot.display_name {
        Some(name) => name.clone(),
        None => {
            return None;
        },
    };
    let empty: String = String::new();
    if display_name == empty {
        return None;
    }
    assert(display_name@.len() > 0) by {
        if display_name@.len() == 0 {
            assert(display_name@ == empty@);
        }
    }
    let character_name: String = match &snapshot.character_name {
        Some(name) => name.clone(),
        None => String::new(),
    };
    Some(
        StoredPlayerIdentity {
            character_name,
            display_name,
            party_index,
            is_online,
        },
    )
}

/// The sigils of a player, and the slot it stood in.
#[derive(Debug)]
pub struct StoredPlayerEquipment {
    pub party_index: u8,
    pub sigils: Vec<Sigil>,
}

/// What a `StoredPlayerEquipment` says.
#[verifier::ext_equal]
pub struct EquipmentModel {
    pub party_index: u8,
    pub sigils: Seq<Sigil>,
}

impl View for StoredPlayerEquipment {
    type V = EquipmentModel;

    open spec fn view(&self) -> EquipmentModel {
        EquipmentModel { party_index: self.party_index, sigils: self.sigils@ }
    }
}

impl StoredPlayerEquipment {
    /// Whether two records say the same.
    fn same(&self, other: &Self) -> (answer: bool)
        ensures
            answer == (self@ == other@),
    {
        if self.party_index != other.party_index || self.sigils.len() != other.sigils.len() {
            return false;
        }
        let mut i: usize = 0;
        while i < self.sigils.len()
            invariant
                i <= self.sigils.len(),
                self.sigils@.len() == other.sigils@.len(),
                forall|k: int| 0 <= k < i ==> self.sigils@[k] == other.sigils@[k],
            decreases self.sigils.len() - i,
        {
            if self.sigils[i] != other.sigils[i] {
                assert(self@.sigils[i as int] != other@.sigils[i as int]);
                return false;
            }
            i = i + 1;
        }
        assert(self@.sigils == other@.sigils);
        true
    }
}

/// An actor whose player was reported.
#[derive(Clone, Copy, Debug, PartialEq, Eq, Structural)]
pub struct ActorMarker {
    pub actor: usize,
    pub player_key: u32,
    pub character_type: u32,
    pub party_index: u8,
}

/// An actor whose equipment was reported.
#[derive(Clone, Copy, Debug, PartialEq, Eq, Structural)]
pub struct EquipmentMarker {
    pub actor: usize,
    pub player_key: u32,
    pub party_index: u8,
}

/// What is known of the players, and what of it was reported.
#[derive(Debug)]
pub struct PlayerCaches {
    pub identities: IdentityStore,
    pub equipment: HashMap<u32, StoredPlayerEquipment>,
    pub actor_keys: Vec<ActorMarker>,
    pub equipment_actors: Vec<EquipmentMarker>,
}

/// What a `PlayerCaches` says.
#[verifier::ext_equal]
pub struct CachesModel {
    pub identities: StoreModel,
    pub equipment: Map<u32, EquipmentModel>,
    pub actor_keys: Seq<ActorMarker>,
    pub equipment_actors: Seq<EquipmentMarker>,
}

/// What the equipment by key says.
pub open spec fn equipment_model(equipment: Map<u32, StoredPlayerEquipment>) -> Map<u32, EquipmentModel> {
    equipment.map_values(|entry: StoredPlayerEquipment| entry@)
}

impl View for PlayerCaches {
    type V = CachesModel;

    open spec fn view(&self) -> CachesModel {
        CachesModel {
            identities: self.identities@,
            equipment: equipment_model(self.equipment@),
            actor_keys: self.actor_keys@,
            equipment_actors: self.equipment_actors@,
        }
    }
}

/// The actors whose equipment was reported, without those of a player.
pub open spec fn other_players(markers: Seq<EquipmentMarker>, player_key: u32) -> Seq<EquipmentMarker> {
    markers.filter(|marker: EquipmentMarker| marker.player_key != player_key)
}

/// Caches in which the sigils of a player were stored. Where they are new, the equipment of
/// the player is to be reported again.
pub open spec fn with_equipment(
    caches: CachesModel,
    player_key: u32,
    equipment: EquipmentModel,
) -> CachesModel {
    if caches.equipment.contains_key(player_key) && caches.equipment[player_key] == equipment {
        caches
    } else {
        CachesModel {
            equipment: caches.equipment.insert(player_key, equipment),
            equipment_actors: other_players(caches.equipment_actors, player_key),
            ..caches
        }
    }
}

/// Caches that have forgotten what was reported.
pub open spec fn unreported(caches: CachesModel) -> CachesModel {
    CachesModel { actor_keys: Seq::empty(), equipment_actors: Seq::empty(), ..caches }
}

/// Caches after the identity and the sigils of a player came in. A new local player makes
/// the equipment of all others worthless; a change of who stands where has everything
/// reported again.
pub open spec fn identity_stored(
    caches: CachesModel,
    player_key: u32,
    identity: IdentityModel,
    sigils: Seq<Sigil>,
) -> CachesModel {
    let stored = CachesModel {
        identities: store_with(caches.identities, player_key, identity),
        equipment: if changes_session(caches.identities, player_key, identity) {
            Map::empty()
        } else {
            caches.equipment
        },
        ..caches
    };
    let equipped = if sigils.len() > 0 {
        with_equipment(
            stored,
            player_key,
            EquipmentModel { party_index: identity.party_index, sigils },
        )
    } else {
        stored
    };
    if changes_mapping(caches.identities, player_key, identity) {
        unreported(equipped)
    } else {
        equipped
    }
}

/// Whether a record is that of a player: it has a key, and a state that a player can be in.
pub open spec fn is_player_record(player_key: u32, player_state: u32) -> bool {
    player_key != 0 && player_key != INVALID_PLAYER_KEY && online_in(player_state) is Some
}

/// Whether a record is that of a player, so that what the game shows of it is worth reading.
pub fn snapshot_wanted(player_key: u32, player_state: u32) -> (wanted: bool)
    ensures
        wanted == is_player_record(player_key, player_state),
{
    player_key != 0 && player_key != INVALID_PLAYER_KEY && is_online_state(player_state).is_some()
}

/// Caches after the game refreshed the identity of a player.
pub open spec fn identity_refreshed(
    caches: CachesModel,
    player_key: u32,
    player_state: u32,
    snapshot: Option<&PlayerSnapshot>,
) -> CachesModel {
    if player_key == 0 || player_key == INVALID_PLAYER_KEY {
        caches
    } else {
        match (online_in(player_state), snapshot) {
            (Some(is_online), Some(snapshot)) => match identity_in(*snapshot, is_online) {
                Some(identity) => if worth_caching(identity) {
                    identity_stored(caches, player_key, identity, sigils_in(snapshot.sigils@))
                } else {
                    caches
                },
                None => caches,
            },
            _ => caches,
        }
    }
}

impl PlayerCaches {
    /// Nobody is known.
    pub fn new() -> (caches: Self)
        ensures
            caches@ == (CachesModel {
                identities: StoreModel {
                    by_key: Map::empty(),
                    active_key_by_party: Map::empty(),
                    local_player_key: None,
                },
                equipment: Map::empty(),
                actor_keys: Seq::empty(),
                equipment_actors: Seq::empty(),
            }),
    {
        let caches = PlayerCaches {
            identities: IdentityStore::new(),
            equipment: HashMap::new(),
            actor_keys: Vec::new(),
            equipment_actors: Vec::new(),
        };
        assert(equipment_model(caches.equipment@) == Map::<u32, EquipmentModel>::empty());
        caches
    }

    /// Forgets what was reported.
    pub fn clear_actor_identity_caches(&mut self)
        ensures
            final(self)@ == unreported(old(self)@),
    {
        self.actor_keys.clear();
        self.equipment_actors.clear();
    }

    /// Forgets that the equipment of a player was reported.
    pub fn clear_equipment_actor_cache_for_key(&mut self, player_key: u32)
        ensures
            final(self)@ == (CachesModel {
                equipment_actors: other_players(old(self)@.equipment_actors, player_key),
                ..old(self)@
            }),
    {
        let ghost before = self.equipment_actors@;
        let ghost keep = |marker: EquipmentMarker| marker.player_key != player_key;
        let mut kept: Vec<EquipmentMarker> = Vec::new();
        let mut i: usize = 0;
        proof {
            reveal(Seq::filter);
            assert(before.take(0) == Seq::<EquipmentMarker>::empty());
        }
        while i < self.equipment_actors.len()
            invariant
                i <= self.equipment_actors.len(),
                self.equipment_actors@ == before,
                *self == *old(self),
                keep == (|marker: EquipmentMarker| marker.player_key != player_key),
                kept@ == before.take(i as int).filter(keep),
            decreases self.equipment_actors.len() - i,
        {
            proof {
                reveal(Seq::filter);
                assert(before.take(i + 1).drop_last() == before.take(i as int));
            }
            let marker: EquipmentMarker = self.equipment_actors[i];
            if marker.player_key != player_key {
                kept.push(marker);
            }
            i = i + 1;
        }
        assert(before.take(i as int) == before);
        self.equipment_actors = kept;
    }

    /// Stores the sigils of a player.
    fn store_equipment(&mut self, player_key: u32, updated: StoredPlayerEquipment)
        ensures
            final(self)@ == with_equipment(old(self)@, player_key, updated@),
    {
        broadcast use vstd::std_specs::hash::group_hash_axioms;

        let known: bool = match self.equipment.get(&player_key) {
            Some(previous) => previous.same(&updated),
            None => false,
        };
        if !known {
            let ghost shown = updated@;
            self.equipment.insert(player_key, updated);
            assert(equipment_model(self.equipment@) == equipment_model(old(self).equipment@).insert(
                player_key,
                shown,
            ));
            self.clear_equipment_actor_cache_for_key(player_key);
        }
    }
}

/// Called when the game refreshes the identity of a player.
#[derive(Debug)]
pub struct OnLoadPlayerIdentityHook {
    pub tx: Outbox,
}

impl OnLoadPlayerIdentityHook {
    /// A hook that sends its messages through `tx`.
    pub fn new(tx: Outbox) -> (hook: Self)
        ensures
            hook.tx == tx,
    {
        OnLoadPlayerIdentityHook { tx }
    }

    /// Takes in the identity of a player, given its key, its state, and what the game shows
    /// of it.
    pub fn run(
        &self,
        caches: &mut PlayerCaches,
        player_key: u32,
        player_state: u32,
        snapshot: Option<&PlayerSnapshot>,
    )
        ensures
            final(caches)@ == identity_refreshed(
                old(caches)@,
                player_key,
                player_state,
                snapshot,
            ),
    {
        broadcast use vstd::std_specs::hash::group_hash_axioms;

        if player_key == 0 || player_key == INVALID_PLAYER_KEY {
            return;
        }
        let is_online: bool = match is_online_state(player_state) {
            Some(is_online) => is_online,
            None => {
                return;
            },
        };
        let snapshot = match snapshot {
            Some(snapshot) => snapshot,
            None => {
                return;
            },
        };
        let identity = match read_player_identity(snapshot, is_online) {
            Some(identity) => identity,
            None => {
                return;
            },
        };
        if !should_cache_identity(&identity) {
            return;
        }
        let party_index: u8 = identity.party_index;
        let sigils: Vec<Sigil> = read_sigils(&snapshot.sigils);
        let outcome = caches.identities.insert(player_key, identity, sigils.len() > 0);
        if outcome.session_changed {
            caches.equipment.clear();
            assert(equipment_model(caches.equipment@) == Map::<u32, EquipmentModel>::empty());
        }
        if outcome.equipment_trusted {
            caches.store_equipment(player_key, StoredPlayerEquipment { party_index, sigils });
        }
        if outcome.mapping_changed {
            caches.clear_actor_identity_caches();
        }
    }
}

/// Who is to be reported as the player of an actor, if anyone is: the actor has a party
/// slot, the machine does not control it, the player with its key stands in that slot, and
/// all that was not reported before.
pub open spec fn player_to_report(
    caches: CachesModel,
    actor: usize,
    head: ActorHead,
    character_type: u32,
) -> Option<(IdentityModel, ActorMarker)> {
    match (head.party(), head.machine(), head.key()) {
        (Some(party_index), Some(false), Some(player_key)) => {
            let marker = ActorMarker { actor, player_key, character_type, party_index };
            match identity_at(caches.identities, player_key, party_index) {
                Some(identity) => if actor != 0 && !caches.actor_keys.contains(marker) {
                    Some((identity, marker))
                } else {
                    None
                },
                None => None,
            }
        },
        _ => None,
    }
}

/// Whether `event` reports who plays actor `actor_index`.
pub open spec fn reports_player(
    event: PlayerIdentityEvent,
    identity: IdentityModel,
    character_type: u32,
    actor_index: u32,
) -> bool {
    &&& event.character_name@ == identity.character_name
    &&& event.display_name@ == identity.display_name
    &&& event.character_type == character_type
    &&& event.party_index == identity.party_index
    &&& event.actor_index == actor_index
    &&& event.is_online == identity.is_online
}

/// Reports who plays an actor, unless that is not known or was reported before.
pub fn identity_event_for_actor(
    caches: &mut PlayerCaches,
    actor: usize,
    head: &ActorHead,
    character_type: u32,
    actor_index: u32,
) -> (event: Option<PlayerIdentityEvent>)
    ensures
        match player_to_report(old(caches)@, actor, *head, character_type) {
            Some((identity, marker)) => (event matches Some(event) && reports_player(
                event,
                identity,
                character_type,
                actor_index,
            )) && final(caches)@ == (CachesModel {
                actor_keys: old(caches)@.actor_keys.push(marker),
                ..old(caches)@
            }),
            None => event is None && final(caches)@ == old(caches)@,
        },
{
    if actor == 0 {
        return None;
    }
    let party_index: u8 = match head.read_actor_party_index() {
        Some(party_index) => party_index,
        None => {
            return None;
        },
    };
    match head.is_ai_controlled_actor() {
        Some(false) => {},
        _ => {
            return None;
        },
    }
    let player_key: u32 = match head.read_actor_player_key() {
        Some(player_key) => player_key,
        None => {
            return None;
        },
    };
    let marker = ActorMarker { actor, player_key, character_type, party_index };
    if holds_actor(&caches.actor_keys, marker) {
        return None;
    }
    let identity = match resolve_identity(&caches.identities, player_key, party_index) {
        Some((_, identity)) => identity,
        None => {
            return None;
        },
    };
    caches.actor_keys.push(marker);
    Some(
        PlayerIdentityEvent {
            character_name: identity.character_name,
            display_name: identity.display_name,
            character_type,
            party_index,
            actor_index,
            is_online: identity.is_online,
        },
    )
}

/// Whether `markers` lists `marker`.
fn holds_actor(markers: &Vec<ActorMarker>, marker: ActorMarker) -> (found: bool)
    ensures
        found == markers@.contains(marker),
{
    let mut i: usize = 0;
    while i < markers.len()
        invariant
            i <= markers.len(),
            forall|k: int| 0 <= k < i ==> markers@[k] != marker,
        decreases markers.len() - i,
    {
        if markers[i] == marker {
            assert(markers@[i as int] == marker);
            return true;
        }
        i = i + 1;
    }
    false
}

/// Whether `markers` lists `marker`.
fn holds_equipment(markers: &Vec<EquipmentMarker>, marker: EquipmentMarker) -> (found: bool)
    ensures
        found == markers@.contains(marker),
{
    let mut i: usize = 0;
    while i < markers.len()
        invariant
            i <= markers.len(),
            forall|k: int| 0 <= k < i ==> markers@[k] != marker,
        decreases markers.len() - i,
    {
        if markers[i] == marker {
            assert(markers@[i as int] == marker);
            return true;
        }
        i = i + 1;
    }
    false
}

/// Under what the equipment of an actor would be reported: the actor has a party slot, it is
/// known who controls it, and it belongs to a player.
pub open spec fn equipment_marker(actor: usize, head: ActorHead) -> Option<EquipmentMarker> {
    match (head.party(), head.machine(), head.key()) {
        (Some(party_index), Some(_), Some(player_key)) => if actor != 0 {
            Some(EquipmentMarker { actor, player_key, party_index })
        } else {
            None
        },
        _ => None,
    }
}

/// Whether the equipment of an actor is still to be reported.
pub open spec fn equipment_missing(caches: CachesModel, actor: usize, head: ActorHead) -> bool {
    match equipment_marker(actor, head) {
        Some(marker) => !caches.equipment_actors.contains(marker),
        None => false,
    }
}

/// Whether the equipment of an actor is still to be reported, so that the rest of the actor
/// is worth reading.
pub fn equipment_wanted(caches: &PlayerCaches, actor: usize, head: &ActorHead) -> (wanted: bool)
    ensures
        wanted == equipment_missing(caches@, actor, *head),
{
    if actor == 0 {
        return false;
    }
    match (
        head.read_actor_party_index(),
        head.is_ai_controlled_actor(),
        head.read_actor_player_key(),
    ) {
        (Some(party_index), Some(_), Some(player_key)) => {
            let marker = EquipmentMarker { actor, player_key, party_index };
            !holds_equipment(&caches.equipment_actors, marker)
        },
        _ => false,
    }
}

/// The sigils that are known of the player with a key, if it stood in the given slot.
pub open spec fn stored_sigils(caches: CachesModel, player_key: u32, party_index: u8) -> Seq<Sigil> {
    if caches.equipment.contains_key(player_key) && caches.equipment[player_key].party_index
        == party_index {
        caches.equipment[player_key].sigils
    } else {
        Seq::empty()
    }
}

/// Whether `event` reports what actor `actor_index` has equipped.
pub open spec fn reports_equipment(
    event: PlayerEquipmentEvent,
    caches: CachesModel,
    marker: EquipmentMarker,
    machine: bool,
    body: ActorBody,
    character_type: u32,
    actor_index: u32,
) -> bool {
    &&& event.sigils@ == stored_sigils(caches, marker.player_key, marker.party_index)
    &&& event.weapon_info == weapon_in(body.weapon@)
    &&& optional_overmasteries(event.overmastery_info) == overmasteries_in(body.overmasteries@)
    &&& event.player_stats == stats_in(body.stats@)
    &&& event.character_type == character_type
    &&& event.party_index == marker.party_index
    &&& event.actor_index == actor_index
    &&& event.is_online == (!machine && marker.party_index != 0)
}

/// Whether the character of an actor has master traits that could be read.
pub open spec fn has_master_traits(
    body: ActorBody,
    character_type: u32,
    effects: MasterTraitEffects,
) -> bool {
    body.data is Some && effects_of(effects.characters@, character_type) is Some
}

/// Whether anything is to be reported of the equipment of an actor.
pub open spec fn equipment_to_report(
    caches: CachesModel,
    actor: usize,
    head: ActorHead,
    body: ActorBody,
    character_type: u32,
    effects: MasterTraitEffects,
) -> bool {
    equipment_missing(caches, actor, head) && {
        let marker = equipment_marker(actor, head)->0;
        ||| stored_sigils(caches, marker.player_key, marker.party_index).len() > 0
        ||| weapon_in(body.weapon@) is Some
        ||| overmasteries_in(body.overmasteries@) is Some
        ||| stats_in(body.stats@) is Some
        ||| has_master_traits(body, character_type, effects)
    }
}

/// Reports what an actor has equipped, unless nothing is known of it or it was reported
/// before.
pub fn equipment_event_for_actor(
    caches: &mut PlayerCaches,
    actor: usize,
    head: &ActorHead,
    body: &ActorBody,
    character_type: u32,
    actor_index: u32,
    effects: &MasterTraitEffects,
) -> (event: Option<PlayerEquipmentEvent>)
    ensures
        if equipment_to_report(old(caches)@, actor, *head, *body, character_type, *effects) {
            (event matches Some(event) && reports_equipment(
                event,
                old(caches)@,
                equipment_marker(actor, *head)->0,
                head.machine()->0,
                *body,
                character_type,
                actor_index,
            ) && are_master_traits(
                body.data,
                character_type,
                effects.characters@,
                event.master_traits,
            )) && final(caches)@ == (CachesModel {
                equipment_actors: old(caches)@.equipment_actors.push(
                    equipment_marker(actor, *head)->0,
                ),
                ..old(caches)@
            })
        } else {
            event is None && final(caches)@ == old(caches)@
        },
{
    broadcast use vstd::std_specs::hash::group_hash_axioms;

    if actor == 0 {
        return None;
    }
    let (party_index, is_ai_controlled, player_key): (u8, bool, u32) = match (
        head.read_actor_party_index(),
        head.is_ai_controlled_actor(),
        head.read_actor_player_key(),
    ) {
        (Some(party_index), Some(is_ai_controlled), Some(player_key)) => (
            party_index,
            is_ai_controlled,
            player_key,
        ),
        _ => {
            return None;
        },
    };
    let marker = EquipmentMarker { actor, player_key, party_index };
    if holds_equipment(&caches.equipment_actors, marker) {
        return None;
    }
    let mut sigils: Vec<Sigil> = Vec::new();
    if let Some(equipment) = caches.equipment.get(&player_key) {
        if equipment.party_index == party_index {
            sigils.extend_from_slice(equipment.sigils.as_slice());
            assert(sigils@ == equipment.sigils@);
        }
    }
    assert(sigils@ == stored_sigils(caches@, player_key, party_index));
    let weapon_info = read_actor_weapon_info(&body.weapon);
    let overmastery_info = read_actor_overmasteries(&body.overmasteries);
    let player_stats = read_actor_player_stats(&body.stats);
    let master_traits = read_actor_master_traits(&body.data, character_type, effects);
    assert(master_traits is Some <==> has_master_traits(*body, character_type, *effects));
    if sigils.len() == 0 && weapon_info.is_none() && overmastery_info.is_none()
        && player_stats.is_none() && master_traits.is_none() {
        return None;
    }
    caches.equipment_actors.push(marker);
    Some(
        PlayerEquipmentEvent {
            sigils,
            weapon_info,
            overmastery_info,
            player_stats,
            master_traits,
            character_type,
            party_index,
            actor_index,
            is_online: !is_ai_controlled && party_index != 0,
        },
    )
}

} // verus!
