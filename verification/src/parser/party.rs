//! Who stands in the party, and with what.

use vstd::prelude::*;

use crate::constants::{character_of, CharacterType};
use crate::encounter::{
    overmasteries_record, slot_model, slots_model, stats_record, weapon_record, EncounterModel,
    OvermasteryInfo, PlayerData, PlayerDataModel, PlayerStats, Sigil, WeaponInfo, INVALID_ID,
    PARTY_SIZE,
};
use crate::master_traits::{
    load_for_party, load_sigils_for_party, load_weapon_for_party, party_build, party_sigils,
    party_weapon, traits_of, CachedBuilds, SigilTraits, SIGIL_SLOT_COUNT,
};
use crate::parser::attribution::{find_player, is_player, player_position};
use crate::parser::{Parser, ParserModel};
use crate::protocol;
use crate::protocol::{PlayerEquipmentEvent, PlayerIdentityEvent, PlayerLoadEvent};

verus! {

/// The level of a trait of a reported sigil: none if there is no such trait, else the
/// reported one if it is possible, else that of the sigil if that is possible.
pub open spec fn trait_level(trait_id: u32, level: u32, sigil_level: u32) -> u32 {
    if trait_id == 0 || trait_id == INVALID_ID {
        0
    } else if 1 <= level <= 15 {
        level
    } else if 1 <= sigil_level <= 15 {
        sigil_level
    } else {
        0
    }
}

/// The record of a reported sigil. The game data tells its traits better than the report.
pub open spec fn sigil_record(sigil: protocol::Sigil, traits: Map<u32, (u32, u32)>) -> Sigil {
    let (first_trait_id, second_trait_id) = match traits_of(traits, sigil.sigil_id) {
        Some(ids) => ids,
        None => (sigil.first_trait_id, sigil.second_trait_id),
    };
    Sigil {
        first_trait_id,
        first_trait_level: trait_level(first_trait_id, sigil.first_trait_level, sigil.sigil_level),
        second_trait_id,
        second_trait_level: trait_level(
            second_trait_id,
            sigil.second_trait_level,
            sigil.sigil_level,
        ),
        sigil_id: sigil.sigil_id,
        equipped_character: sigil.equipped_character,
        sigil_level: sigil.sigil_level,
        acquisition_count: sigil.acquisition_count,
        notification_enum: sigil.notification_enum,
    }
}

/// The record of reported sigils, one for one.
pub open spec fn sigil_records(sigils: Seq<protocol::Sigil>, traits: Map<u32, (u32, u32)>) -> Seq<
    Sigil,
> {
    sigils.map_values(|sigil: protocol::Sigil| sigil_record(sigil, traits))
}

/// The party with `player` in slot `party_index`, and in no other.
pub open spec fn seated(
    players: Seq<Option<PlayerDataModel>>,
    player: PlayerDataModel,
    party_index: u8,
) -> Seq<Option<PlayerDataModel>> {
    Seq::new(
        players.len(),
        |i: int|
            if i == party_index {
                Some(player)
            } else if is_player(players[i], player.actor_index) {
                None
            } else {
                players[i]
            },
    )
}

/// A parser with `player` in slot `party_index`, and in no other.
pub open spec fn with_player(parser: ParserModel, player: PlayerDataModel, party_index: u8) -> ParserModel {
    ParserModel {
        encounter: EncounterModel {
            player_data: seated(parser.encounter.player_data, player, party_index),
            ..parser.encounter
        },
        ..parser
    }
}

/// What is known of player `actor_index`, if it stands in the party.
pub open spec fn known_player(players: Seq<Option<PlayerDataModel>>, actor_index: u32) -> Option<
    PlayerDataModel,
> {
    let position = player_position(players, actor_index) as int;
    if position < players.len() {
        players[position]
    } else {
        None
    }
}

/// What a player-load report says of a player. Master traits are not part of it: those of
/// the local machine's players come from the saved game.
pub open spec fn loaded_player(
    event: PlayerLoadEvent,
    traits: Map<u32, (u32, u32)>,
    save: Option<&CachedBuilds>,
) -> PlayerDataModel {
    PlayerDataModel {
        actor_index: event.actor_index,
        display_name: event.display_name@,
        character_name: event.character_name@,
        character_type: character_of(event.character_type),
        sigils: sigil_records(event.sigils@, traits),
        is_online: event.is_online,
        weapon_info: Some(weapon_record(event.weapon_info)),
        overmastery_info: Some(overmasteries_record(event.overmastery_info)),
        player_stats: Some(stats_record(event.player_stats)),
        master_traits: if event.is_online {
            Seq::empty()
        } else {
            party_build(save, event.party_index)
        },
    }
}

/// What an identity report makes of what was known of a player. What was known of an
/// online player is not kept for a local one, nor the other way round; what is not known
/// of a local one comes from the saved game.
pub open spec fn identified_player(
    known: Option<PlayerDataModel>,
    event: PlayerIdentityEvent,
    save: Option<&CachedBuilds>,
) -> PlayerDataModel {
    let was_online = match known {
        Some(player) => player.is_online,
        None => event.is_online,
    };
    let kept = known is Some && was_online == event.is_online;
    let sigils = if kept {
        known->0.sigils
    } else {
        Seq::empty()
    };
    let weapon_info = if kept {
        known->0.weapon_info
    } else {
        None
    };
    PlayerDataModel {
        actor_index: event.actor_index,
        display_name: event.display_name@,
        character_name: event.character_name@,
        character_type: character_of(event.character_type),
        sigils: if !event.is_online && sigils.len() == 0 {
            party_sigils(save, event.party_index)
        } else {
            sigils
        },
        is_online: event.is_online,
        weapon_info: if !event.is_online && weapon_info is None {
            party_weapon(save, event.party_index)
        } else {
            weapon_info
        },
        overmastery_info: if kept {
            known->0.overmastery_info
        } else {
            None
        },
        player_stats: if kept {
            known->0.player_stats
        } else {
            None
        },
        master_traits: if event.is_online {
            Seq::empty()
        } else {
            party_build(save, event.party_index)
        },
    }
}

/// What is known of a player before its first equipment report.
pub open spec fn unknown_player(event: PlayerEquipmentEvent) -> PlayerDataModel {
    PlayerDataModel {
        actor_index: event.actor_index,
        display_name: Seq::empty(),
        character_name: Seq::empty(),
        character_type: character_of(event.character_type),
        sigils: Seq::empty(),
        is_online: event.is_online,
        weapon_info: None,
        overmastery_info: None,
        player_stats: None,
        master_traits: Seq::empty(),
    }
}

/// What an equipment report makes of what was known of a player. What the report tells
/// counts; what it does not tell stays, or comes from the saved game for a player of the
/// local machine. A party member that the machine controls has no name, and what was
/// known of a local player is not kept for an online one.
pub open spec fn equipped_player(
    known: Option<PlayerDataModel>,
    event: PlayerEquipmentEvent,
    traits: Map<u32, (u32, u32)>,
    save: Option<&CachedBuilds>,
) -> PlayerDataModel {
    let player = match known {
        Some(player) => player,
        None => unknown_player(event),
    };
    let nameless = !event.is_online && event.party_index != 0;
    let dropped = event.is_online && !player.is_online;
    let sigils = sigil_records(event.sigils@.take(
        if event.sigils@.len() < SIGIL_SLOT_COUNT {
            event.sigils@.len() as int
        } else {
            SIGIL_SLOT_COUNT as int
        },
    ), traits);
    PlayerDataModel {
        actor_index: player.actor_index,
        display_name: if nameless {
            Seq::empty()
        } else {
            player.display_name
        },
        character_name: if nameless {
            Seq::empty()
        } else {
            player.character_name
        },
        character_type: character_of(event.character_type),
        sigils: if sigils.len() > 0 {
            sigils
        } else {
            player.sigils
        },
        is_online: event.is_online,
        weapon_info: match event.weapon_info {
            Some(info) => Some(weapon_record(info)),
            None => if dropped {
                None
            } else if !event.is_online && player.weapon_info is None {
                party_weapon(save, event.party_index)
            } else {
                player.weapon_info
            },
        },
        overmastery_info: match event.overmastery_info {
            Some(info) => Some(overmasteries_record(info)),
            None => if dropped {
                None
            } else {
                player.overmastery_info
            },
        },
        player_stats: match event.player_stats {
            Some(stats) => Some(stats_record(stats)),
            None => if dropped {
                None
            } else {
                player.player_stats
            },
        },
        master_traits: match event.master_traits {
            Some(live) => live@,
            None => if event.is_online {
                Seq::empty()
            } else {
                party_build(save, event.party_index)
            },
        },
    }
}

/// Whether a report of a character of the given type is passed on. Id's transformation is no
/// player, so that of it is not.
pub open spec fn is_news(character_type: u32) -> bool {
    character_of(character_type) != CharacterType::Pl2000
}

/// A parser after a player character was loaded. Id's transformation is no player.
pub open spec fn after_load_event(
    parser: ParserModel,
    event: PlayerLoadEvent,
    traits: Map<u32, (u32, u32)>,
    save: Option<&CachedBuilds>,
) -> ParserModel {
    if character_of(event.character_type) == CharacterType::Pl2000 {
        parser
    } else {
        with_player(parser, loaded_player(event, traits, save), event.party_index)
    }
}

/// A parser after it was reported who stands in a party slot. Id's transformation is no player.
pub open spec fn after_identity_event(
    parser: ParserModel,
    event: PlayerIdentityEvent,
    save: Option<&CachedBuilds>,
) -> ParserModel {
    if character_of(event.character_type) == CharacterType::Pl2000 {
        parser
    } else {
        with_player(
            parser,
            identified_player(
                known_player(parser.encounter.player_data, event.actor_index),
                event,
                save,
            ),
            event.party_index,
        )
    }
}

/// A parser after it was reported what a player has equipped. Id's transformation is no player.
pub open spec fn after_equipment_event(
    parser: ParserModel,
    event: PlayerEquipmentEvent,
    traits: Map<u32, (u32, u32)>,
    save: Option<&CachedBuilds>,
) -> ParserModel {
    if character_of(event.character_type) == CharacterType::Pl2000 {
        parser
    } else {
        with_player(
            parser,
            equipped_player(
                known_player(parser.encounter.player_data, event.actor_index),
                event,
                traits,
                save,
            ),
            event.party_index,
        )
    }
}

/// The record of a reported sigil.
pub fn sigil_from_protocol(sigil: protocol::Sigil, traits: &SigilTraits) -> (record: Sigil)
    ensures
        record == sigil_record(sigil, traits@),
{
    let (first_trait_id, second_trait_id): (u32, u32) = match traits.sigil_trait_ids(sigil.sigil_id) {
        Some(ids) => ids,
        None => (sigil.first_trait_id, sigil.second_trait_id),
    };
    Sigil {
        first_trait_id,
        first_trait_level: level_of_trait(
            first_trait_id,
            sigil.first_trait_level,
            sigil.sigil_level,
        ),
        second_trait_id,
        second_trait_level: level_of_trait(
            second_trait_id,
            sigil.second_trait_level,
            sigil.sigil_level,
        ),
        sigil_id: sigil.sigil_id,
        equipped_character: sigil.equipped_character,
        sigil_level: sigil.sigil_level,
        acquisition_count: sigil.acquisition_count,
        notification_enum: sigil.notification_enum,
    }
}

fn level_of_trait(trait_id: u32, level: u32, sigil_level: u32) -> (result: u32)
    ensures
        result == trait_level(trait_id, level, sigil_level),
{
    if trait_id == 0 || trait_id == INVALID_ID {
        0
    } else if 1 <= level && level <= 15 {
        level
    } else if 1 <= sigil_level && sigil_level <= 15 {
        sigil_level
    } else {
        0
    }
}

/// The record of the first `count` of the reported sigils.
fn sigils_from_protocol(sigils: &Vec<protocol::Sigil>, count: usize, traits: &SigilTraits) -> (records:
    Vec<Sigil>)
    requires
        count <= sigils@.len(),
    ensures
        records@ == sigil_records(sigils@.take(count as int), traits@),
{
    let mut records: Vec<Sigil> = Vec::new();
    let mut i: usize = 0;
    while i < count
        invariant
            i <= count <= sigils@.len(),
            records@ == sigil_records(sigils@.take(i as int), traits@),
        decreases count - i,
    {
        records.push(sigil_from_protocol(sigils[i], traits));
        i = i + 1;
        assert(records@ == sigil_records(sigils@.take(i as int), traits@));
    }
    records
}

impl Parser {
    /// Puts a player into a party slot, and takes it out of the others.
    pub fn insert_player_data(&mut self, player_data: PlayerData, party_index: u8)
        ensures
            final(self)@ == with_player(old(self)@, player_data@, party_index),
    {
        let ghost before = self@.encounter.player_data;
        let ghost player = player_data@;
        let actor_index: u32 = player_data.actor_index;
        let mut i: usize = 0;
        while i < PARTY_SIZE
            invariant
                i <= PARTY_SIZE,
                before == old(self)@.encounter.player_data,
                before.len() == PARTY_SIZE,
                self@.encounter.player_data.len() == PARTY_SIZE,
                player.actor_index == actor_index,
                forall|k: int|
                    0 <= k < PARTY_SIZE ==> #[trigger] self@.encounter.player_data[k] == if k < i
                        && k != party_index && is_player(before[k], actor_index) {
                        None
                    } else {
                        before[k]
                    },
                self@ == (ParserModel {
                    encounter: EncounterModel {
                        player_data: self@.encounter.player_data,
                        ..old(self)@.encounter
                    },
                    ..old(self)@
                }),
            decreases PARTY_SIZE - i,
        {
            assert(self@.encounter.player_data[i as int] == slot_model(
                self.encounter.player_data@[i as int],
            ));
            let other: bool = match &self.encounter.player_data[i] {
                Some(existing) => existing.actor_index == actor_index,
                None => false,
            };
            let ghost earlier = self.encounter.player_data@;
            if i != party_index as usize && other {
                self.encounter.player_data[i] = None;
            }
            assert forall|k: int| 0 <= k < PARTY_SIZE implies #[trigger] self@.encounter.player_data[k]
                == (if k < i + 1 && k != party_index && is_player(before[k], actor_index) {
                None
            } else {
                before[k]
            }) by {
                assert(self@.encounter.player_data[k] == slot_model(
                    self.encounter.player_data@[k],
                ));
                assert(slots_model(earlier)[k] == slot_model(earlier[k]));
                assert(k != i ==> self.encounter.player_data@[k] == earlier[k]);
            }
            i = i + 1;
        }
        let ghost earlier = self.encounter.player_data@;
        if (party_index as usize) < PARTY_SIZE {
            self.encounter.player_data[party_index as usize] = Some(player_data);
        }
        assert forall|k: int| 0 <= k < PARTY_SIZE implies #[trigger] self@.encounter.player_data[k]
            == seated(before, player, party_index)[k] by {
            assert(self@.encounter.player_data[k] == slot_model(self.encounter.player_data@[k]));
            assert(slots_model(earlier)[k] == slot_model(earlier[k]));
            assert(k != party_index ==> self.encounter.player_data@[k] == earlier[k]);
        }
        assert(self@.encounter.player_data == seated(before, player, party_index));
    }

    /// What is known of player `actor_index`, if it stands in the party.
    fn known_player_data(&self, actor_index: u32) -> (known: Option<PlayerData>)
        ensures
            slot_model(known) == known_player(self@.encounter.player_data, actor_index),
            known is Some ==> known->0.actor_index == actor_index,
    {
        match find_player(&self.encounter.player_data, actor_index) {
            Some(slot) => {
                assert(slots_model(self.encounter.player_data@)[slot as int] == slot_model(
                    self.encounter.player_data@[slot as int],
                ));
                match &self.encounter.player_data[slot] {
                    Some(player) => Some(player.duplicate()),
                    None => None,
                }
            },
            None => None,
        }
    }

    /// Takes in that a player character was loaded, and tells whether the party is to be sent to
    /// the window. Id's transformation is no player.
    pub fn on_player_load_event(
        &mut self,
        event: PlayerLoadEvent,
        traits: &SigilTraits,
        save: Option<&CachedBuilds>,
    ) -> (send: bool)
        ensures
            send == is_news(event.character_type),
            final(self)@ == after_load_event(old(self)@, event, traits@, save),
    {
        let character_type: CharacterType = CharacterType::from_hash(event.character_type);
        if character_type == CharacterType::Pl2000 {
            return false;
        }
        let sigils: Vec<Sigil> = sigils_from_protocol(&event.sigils, event.sigils.len(), traits);
        assert(event.sigils@.take(event.sigils@.len() as int) == event.sigils@);
        let ghost loaded = loaded_player(event, traits@, save);
        let party_index: u8 = event.party_index;
        let player_data = PlayerData {
            actor_index: event.actor_index,
            display_name: event.display_name,
            character_name: event.character_name,
            character_type,
            sigils,
            is_online: event.is_online,
            weapon_info: Some(WeaponInfo::from(event.weapon_info)),
            overmastery_info: Some(OvermasteryInfo::from(event.overmastery_info)),
            player_stats: Some(PlayerStats::from(event.player_stats)),
            master_traits: if event.is_online {
                Vec::new()
            } else {
                load_for_party(save, party_index)
            },
        };
        assert(player_data@ == loaded);
        self.insert_player_data(player_data, party_index);
        true
    }

    /// Takes in who stands in a party slot, and tells whether the party is to be sent to the
    /// window. Id's transformation is no player.
    pub fn on_player_identity_event(
        &mut self,
        event: PlayerIdentityEvent,
        save: Option<&CachedBuilds>,
    ) -> (send: bool)
        ensures
            send == is_news(event.character_type),
            final(self)@ == after_identity_event(old(self)@, event, save),
    {
        let character_type: CharacterType = CharacterType::from_hash(event.character_type);
        if character_type == CharacterType::Pl2000 {
            return false;
        }
        let ghost known = known_player(self@.encounter.player_data, event.actor_index);
        let ghost identified = identified_player(known, event, save);
        let party_index: u8 = event.party_index;
        let mut player_data = match self.known_player_data(event.actor_index) {
            Some(player) => player,
            None => PlayerData {
                actor_index: event.actor_index,
                display_name: String::new(),
                character_name: String::new(),
                character_type,
                sigils: if event.is_online {
                    Vec::new()
                } else {
                    load_sigils_for_party(save, party_index)
                },
                is_online: event.is_online,
                weapon_info: if event.is_online {
                    None
                } else {
                    load_weapon_for_party(save, party_index)
                },
                overmastery_info: None,
                player_stats: None,
                master_traits: Vec::new(),
            },
        };
        let was_online: bool = player_data.is_online;
        player_data.display_name = event.display_name;
        player_data.character_name = event.character_name;
        player_data.character_type = character_type;
        player_data.is_online = event.is_online;
        if event.is_online {
            player_data.master_traits = Vec::new();
            if !was_online {
                player_data.sigils = Vec::new();
                player_data.weapon_info = None;
                player_data.overmastery_info = None;
                player_data.player_stats = None;
            }
        } else {
            player_data.master_traits = load_for_party(save, party_index);
            if was_online || player_data.sigils.len() == 0 {
                player_data.sigils = load_sigils_for_party(save, party_index);
            }
            if was_online || player_data.weapon_info.is_none() {
                player_data.weapon_info = load_weapon_for_party(save, party_index);
            }
            if was_online {
                player_data.overmastery_info = None;
                player_data.player_stats = None;
            }
        }
        assert(player_data@ == identified);
        self.insert_player_data(player_data, party_index);
        true
    }

    /// Takes in what the player in a party slot has equipped, and tells whether the party is to
    /// be sent to the window. Id's transformation is no player.
    pub fn on_player_equipment_event(
        &mut self,
        event: PlayerEquipmentEvent,
        traits: &SigilTraits,
        save: Option<&CachedBuilds>,
    ) -> (send: bool)
        ensures
            send == is_news(event.character_type),
            final(self)@ == after_equipment_event(old(self)@, event, traits@, save),
    {
        let character_type: CharacterType = CharacterType::from_hash(event.character_type);
        if character_type == CharacterType::Pl2000 {
            return false;
        }
        let ghost known = known_player(self@.encounter.player_data, event.actor_index);
        let ghost equipped = equipped_player(known, event, traits@, save);
        let count: usize = if event.sigils.len() < SIGIL_SLOT_COUNT {
            event.sigils.len()
        } else {
            SIGIL_SLOT_COUNT
        };
        let sigils: Vec<Sigil> = sigils_from_protocol(&event.sigils, count, traits);
        let party_index: u8 = event.party_index;
        let mut player_data = match self.known_player_data(event.actor_index) {
            Some(player) => player,
            None => PlayerData {
                actor_index: event.actor_index,
                display_name: String::new(),
                character_name: String::new(),
                character_type,
                sigils: Vec::new(),
                is_online: event.is_online,
                weapon_info: None,
                overmastery_info: None,
                player_stats: None,
                master_traits: Vec::new(),
            },
        };
        let was_online: bool = player_data.is_online;
        player_data.character_type = character_type;
        player_data.is_online = event.is_online;
        if !event.is_online && party_index != 0 {
            player_data.display_name = String::new();
            player_data.character_name = String::new();
        }
        if sigils.len() > 0 {
            player_data.sigils = sigils;
        }
        if event.is_online {
            if !was_online {
                player_data.weapon_info = None;
                player_data.overmastery_info = None;
                player_data.player_stats = None;
            }
        } else {
            if player_data.weapon_info.is_none() {
                player_data.weapon_info = load_weapon_for_party(save, party_index);
            }
        }
        player_data.master_traits = match event.master_traits {
            Some(master_traits) => master_traits,
            None => if event.is_online {
                Vec::new()
            } else {
                load_for_party(save, party_index)
            },
        };
        if let Some(weapon_info) = event.weapon_info {
            player_data.weapon_info = Some(WeaponInfo::from(weapon_info));
        }
        if let Some(overmastery_info) = event.overmastery_info {
            player_data.overmastery_info = Some(OvermasteryInfo::from(overmastery_info));
        }
        if let Some(player_stats) = event.player_stats {
            player_data.player_stats = Some(PlayerStats::from(player_stats));
        }
        assert(player_data@ == equipped);
        self.insert_player_data(player_data, party_index);
        true
    }
}

} // verus!
