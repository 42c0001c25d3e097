//! The record of an encounter: who took part, and what was reported.

use vstd::prelude::*;
use vstd::std_specs::convert::FromSpecImpl;

use crate::constants::CharacterType;
use crate::float32::Float32;
use crate::protocol;
use crate::protocol::{DamageEvent, Message};

verus! {

/// How many players a party has.
pub const PARTY_SIZE: usize = 4;

/// The id the game writes where there is nothing.
pub const INVALID_ID: u32 = 0x887A_E0B0;

/// A weapon and what is on it.
#[derive(Clone, Copy, Debug, PartialEq, Eq, Structural)]
pub struct WeaponInfo {
    /// Weapon ID hash.
    pub weapon_id: u32,
    /// How many uncap stars the weapon has.
    pub star_level: u32,
    /// Number of plus marks on the weapon.
    pub plus_marks: u32,
    /// Awakening level.
    pub awakening_level: u32,
    /// First trait ID.
    pub trait_1_id: u32,
    /// First trait level.
    pub trait_1_level: u32,
    /// Second trait ID.
    pub trait_2_id: u32,
    /// Second trait level.
    pub trait_2_level: u32,
    /// Third trait ID.
    pub trait_3_id: u32,
    /// Third trait level.
    pub trait_3_level: u32,
    /// Wrightstone used on the weapon.
    pub wrightstone_id: u32,
    /// Current weapon level.
    pub weapon_level: u32,
    /// HP of the weapon, before plus marks.
    pub weapon_hp: u32,
    /// Attack of the weapon, before plus marks.
    pub weapon_attack: u32,
}

/// The record of a reported weapon.
pub open spec fn weapon_record(info: protocol::WeaponInfo) -> WeaponInfo {
    WeaponInfo {
        weapon_id: info.weapon_id,
        star_level: info.star_level,
        plus_marks: info.plus_marks,
        awakening_level: info.awakening_level,
        trait_1_id: info.trait_1_id,
        trait_1_level: info.trait_1_level,
        trait_2_id: info.trait_2_id,
        trait_2_level: info.trait_2_level,
        trait_3_id: info.trait_3_id,
        trait_3_level: info.trait_3_level,
        wrightstone_id: info.wrightstone_id,
        weapon_level: info.weapon_level,
        weapon_hp: info.weapon_hp,
        weapon_attack: info.weapon_attack,
    }
}

impl From<protocol::WeaponInfo> for WeaponInfo {
    fn from(info: protocol::WeaponInfo) -> (record: Self) {
        WeaponInfo {
            weapon_id: info.weapon_id,
            star_level: info.star_level,
            plus_marks: info.plus_marks,
            awakening_level: info.awakening_level,
            trait_1_id: info.trait_1_id,
            trait_1_level: info.trait_1_level,
            trait_2_id: info.trait_2_id,
            trait_2_level: info.trait_2_level,
            trait_3_id: info.trait_3_id,
            trait_3_level: info.trait_3_level,
            wrightstone_id: info.wrightstone_id,
            weapon_level: info.weapon_level,
            weapon_hp: info.weapon_hp,
            weapon_attack: info.weapon_attack,
        }
    }
}

impl FromSpecImpl<protocol::WeaponInfo> for WeaponInfo {
    open spec fn obeys_from_spec() -> bool {
        true
    }

    open spec fn from_spec(info: protocol::WeaponInfo) -> Self {
        weapon_record(info)
    }
}

/// Overmastery, also known as limit bonus.
#[derive(Clone, Copy, Debug, PartialEq, Eq, Structural)]
pub struct Overmastery {
    /// Overmastery ID.
    pub id: u32,
    /// Flags.
    pub flags: u32,
    /// Value.
    pub value: Float32,
}

/// The record of a reported overmastery.
pub open spec fn overmastery_record(info: protocol::Overmastery) -> Overmastery {
    Overmastery { id: info.id, flags: info.flags, value: info.value }
}

impl From<protocol::Overmastery> for Overmastery {
    fn from(info: protocol::Overmastery) -> (record: Self) {
        Overmastery { id: info.id, flags: info.flags, value: info.value }
    }
}

impl FromSpecImpl<protocol::Overmastery> for Overmastery {
    open spec fn obeys_from_spec() -> bool {
        true
    }

    open spec fn from_spec(info: protocol::Overmastery) -> Self {
        overmastery_record(info)
    }
}

/// The overmasteries of a character.
#[derive(Clone, Debug, PartialEq, Eq)]
pub struct OvermasteryInfo {
    pub overmasteries: Vec<Overmastery>,
}

impl View for OvermasteryInfo {
    type V = Seq<Overmastery>;

    open spec fn view(&self) -> Seq<Overmastery> {
        self.overmasteries@
    }
}

/// The record of reported overmasteries.
pub open spec fn overmasteries_record(info: protocol::OvermasteryInfo) -> Seq<Overmastery> {
    info.overmasteries@.map_values(|one: protocol::Overmastery| overmastery_record(one))
}

impl OvermasteryInfo {
    /// The record of reported overmasteries, one for one.
    pub fn from(info: protocol::OvermasteryInfo) -> (record: Self)
        ensures
            record@ == overmasteries_record(info),
    {
        let mut overmasteries: Vec<Overmastery> = Vec::new();
        let mut i: usize = 0;
        while i < info.overmasteries.len()
            invariant
                i <= info.overmasteries.len(),
                overmasteries@ == overmasteries_record(info).take(i as int),
            decreases info.overmasteries.len() - i,
        {
            overmasteries.push(Overmastery::from(info.overmasteries[i]));
            i = i + 1;
            assert(overmasteries@ == overmasteries_record(info).take(i as int));
        }
        assert(overmasteries_record(info).take(i as int) == overmasteries_record(info));
        OvermasteryInfo { overmasteries }
    }
}

/// The stats of a character.
#[derive(Clone, Copy, Debug, PartialEq, Eq, Structural)]
pub struct PlayerStats {
    pub level: u32,
    pub total_hp: u32,
    pub total_attack: u32,
    pub stun_power: Float32,
    pub critical_rate: Float32,
    pub total_power: u32,
}

/// The record of reported stats.
pub open spec fn stats_record(stats: protocol::PlayerStats) -> PlayerStats {
    PlayerStats {
        level: stats.level,
        total_hp: stats.total_hp,
        total_attack: stats.total_attack,
        stun_power: stats.stun_power,
        critical_rate: stats.critical_rate,
        total_power: stats.total_power,
    }
}

impl From<protocol::PlayerStats> for PlayerStats {
    fn from(stats: protocol::PlayerStats) -> (record: Self) {
        PlayerStats {
            level: stats.level,
            total_hp: stats.total_hp,
            total_attack: stats.total_attack,
            stun_power: stats.stun_power,
            critical_rate: stats.critical_rate,
            total_power: stats.total_power,
        }
    }
}

impl FromSpecImpl<protocol::PlayerStats> for PlayerStats {
    open spec fn obeys_from_spec() -> bool {
        true
    }

    open spec fn from_spec(stats: protocol::PlayerStats) -> Self {
        stats_record(stats)
    }
}

/// A sigil that a character has equipped.
#[derive(Clone, Copy, Debug, PartialEq, Eq, Structural)]
pub struct Sigil {
    /// ID of the first trait in this sigil.
    pub first_trait_id: u32,
    /// Level of the first trait in this sigil.
    pub first_trait_level: u32,
    /// ID of the second trait in this sigil.
    pub second_trait_id: u32,
    /// Level of the second trait in this sigil.
    pub second_trait_level: u32,
    /// ID of the sigil.
    pub sigil_id: u32,
    /// ID of the character that this sigil is equipped to.
    pub equipped_character: u32,
    /// Level of the sigil.
    pub sigil_level: u32,
    /// At what sigil count this sigil was acquired.
    pub acquisition_count: u32,
    /// 0 is a new sigil, 1 is nothing, 2 is a notification that was checked.
    pub notification_enum: u32,
}

/// A player in the encounter.
#[derive(Clone, Debug, PartialEq, Eq)]
pub struct PlayerData {
    /// Actor index of this player.
    pub actor_index: u32,
    /// Display name of this player, empty for an NPC.
    pub display_name: String,
    /// Character name of an NPC, otherwise the same as the display name.
    pub character_name: String,
    /// Character type of this player.
    pub character_type: CharacterType,
    /// Sigils that this player has equipped.
    pub sigils: Vec<Sigil>,
    /// Whether this player is an online player.
    pub is_online: bool,
    /// Weapon of this player.
    pub weapon_info: Option<WeaponInfo>,
    /// Overmasteries of this player.
    pub overmastery_info: Option<OvermasteryInfo>,
    /// Stats of this player.
    pub player_stats: Option<PlayerStats>,
    /// Master traits of this player.
    pub master_traits: Vec<u32>,
}

/// What a `PlayerData` says.
#[verifier::ext_equal]
pub struct PlayerDataModel {
    pub actor_index: u32,
    pub display_name: Seq<char>,
    pub character_name: Seq<char>,
    pub character_type: CharacterType,
    pub sigils: Seq<Sigil>,
    pub is_online: bool,
    pub weapon_info: Option<WeaponInfo>,
    pub overmastery_info: Option<Seq<Overmastery>>,
    pub player_stats: Option<PlayerStats>,
    pub master_traits: Seq<u32>,
}

/// What an optional `OvermasteryInfo` says.
pub open spec fn optional_overmasteries(info: Option<OvermasteryInfo>) -> Option<Seq<Overmastery>> {
    match info {
        Some(info) => Some(info@),
        None => None,
    }
}

impl View for PlayerData {
    type V = PlayerDataModel;

    open spec fn view(&self) -> PlayerDataModel {
        PlayerDataModel {
            actor_index: self.actor_index,
            display_name: self.display_name@,
            character_name: self.character_name@,
            character_type: self.character_type,
            sigils: self.sigils@,
            is_online: self.is_online,
            weapon_info: self.weapon_info,
            overmastery_info: optional_overmasteries(self.overmastery_info),
            player_stats: self.player_stats,
            master_traits: self.master_traits@,
        }
    }
}

impl PlayerData {
    /// Another `PlayerData` that says the same.
    pub fn duplicate(&self) -> (copy: Self)
        ensures
            copy@ == self@,
    {
        let mut sigils: Vec<Sigil> = Vec::new();
        sigils.extend_from_slice(self.sigils.as_slice());
        let mut master_traits: Vec<u32> = Vec::new();
        master_traits.extend_from_slice(self.master_traits.as_slice());
        let overmastery_info = match &self.overmastery_info {
            Some(info) => {
                let mut overmasteries: Vec<Overmastery> = Vec::new();
                overmasteries.extend_from_slice(info.overmasteries.as_slice());
                assert(overmasteries@ == info@);
                Some(OvermasteryInfo { overmasteries })
            },
            None => None,
        };
        let copy = PlayerData {
            actor_index: self.actor_index,
            display_name: self.display_name.clone(),
            character_name: self.character_name.clone(),
            character_type: self.character_type,
            sigils,
            is_online: self.is_online,
            weapon_info: self.weapon_info,
            overmastery_info,
            player_stats: self.player_stats,
            master_traits,
        };
        assert(copy@.sigils == self@.sigils);
        assert(copy@.master_traits == self@.master_traits);
        assert(copy@.overmastery_info == self@.overmastery_info);
        copy
    }
}

/// What a party slot says.
pub open spec fn slot_model(slot: Option<PlayerData>) -> Option<PlayerDataModel> {
    match slot {
        Some(player) => Some(player@),
        None => None,
    }
}

/// What the party slots say.
pub open spec fn slots_model(slots: Seq<Option<PlayerData>>) -> Seq<Option<PlayerDataModel>> {
    slots.map_values(|slot: Option<PlayerData>| slot_model(slot))
}

/// All that is needed to work out the state of an encounter at any point in time.
#[derive(Debug)]
pub struct Encounter {
    pub player_data: [Option<PlayerData>; PARTY_SIZE],
    pub quest_id: Option<u32>,
    pub quest_timer: Option<u32>,
    pub quest_completed: bool,
    /// Hits as older logs hold them; use `event_log()` instead.
    pub event_log: Vec<(i64, DamageEvent)>,
    /// Everything that was reported, with the time in milliseconds.
    pub raw_event_log: Vec<(i64, Message)>,
}

/// What an `Encounter` says.
#[verifier::ext_equal]
pub struct EncounterModel {
    pub player_data: Seq<Option<PlayerDataModel>>,
    pub quest_id: Option<u32>,
    pub quest_timer: Option<u32>,
    pub quest_completed: bool,
    pub event_log: Seq<(i64, DamageEvent)>,
    pub raw_event_log: Seq<(i64, Message)>,
}

impl View for Encounter {
    type V = EncounterModel;

    open spec fn view(&self) -> EncounterModel {
        EncounterModel {
            player_data: slots_model(self.player_data@),
            quest_id: self.quest_id,
            quest_timer: self.quest_timer,
            quest_completed: self.quest_completed,
            event_log: self.event_log@,
            raw_event_log: self.raw_event_log@,
        }
    }
}

/// Four empty party slots.
pub open spec fn empty_party() -> Seq<Option<PlayerDataModel>> {
    seq![None::<PlayerDataModel>, None, None, None]
}

/// An encounter of which nothing is known.
pub open spec fn empty_encounter() -> EncounterModel {
    EncounterModel {
        player_data: empty_party(),
        quest_id: None,
        quest_timer: None,
        quest_completed: false,
        event_log: Seq::empty(),
        raw_event_log: Seq::empty(),
    }
}

/// The log that a list of hits stands for.
pub open spec fn hits_as_messages(hits: Seq<(i64, DamageEvent)>) -> Seq<(i64, Message)> {
    hits.map_values(|hit: (i64, DamageEvent)| (hit.0, Message::DamageEvent(hit.1)))
}

impl Default for Encounter {
    fn default() -> (encounter: Self)
        ensures
            encounter@ == empty_encounter(),
    {
        let encounter = Encounter {
            player_data: [None, None, None, None],
            quest_id: None,
            quest_timer: None,
            quest_completed: false,
            event_log: Vec::new(),
            raw_event_log: Vec::new(),
        };
        assert(slots_model(encounter.player_data@) == empty_party());
        encounter
    }
}

impl Encounter {
    /// Fills the log of an older record, which holds its hits elsewhere.
    pub fn repopulate_event_log(&mut self)
        ensures
            final(self)@ == (EncounterModel {
                raw_event_log: if old(self)@.raw_event_log.len() > 0 {
                    old(self)@.raw_event_log
                } else {
                    hits_as_messages(old(self)@.event_log)
                },
                ..old(self)@
            }),
    {
        if self.raw_event_log.len() > 0 {
            return;
        }
        let mut i: usize = 0;
        while i < self.event_log.len()
            invariant
                i <= self.event_log.len(),
                self.event_log == old(self).event_log,
                self.player_data == old(self).player_data,
                self.quest_id == old(self).quest_id,
                self.quest_timer == old(self).quest_timer,
                self.quest_completed == old(self).quest_completed,
                self.raw_event_log@ == hits_as_messages(old(self)@.event_log).take(i as int),
            decreases self.event_log.len() - i,
        {
            let (timestamp, event): (i64, DamageEvent) = self.event_log[i];
            self.raw_event_log.push((timestamp, Message::DamageEvent(event)));
            i = i + 1;
            assert(self.raw_event_log@ == hits_as_messages(old(self)@.event_log).take(i as int));
        }
        assert(hits_as_messages(old(self)@.event_log).take(i as int) == hits_as_messages(
            old(self)@.event_log,
        ));
    }

    /// Empties the party.
    pub fn reset_player_data(&mut self)
        ensures
            final(self)@ == (EncounterModel { player_data: empty_party(), ..old(self)@ }),
    {
        self.player_data = [None, None, None, None];
        assert(slots_model(self.player_data@) == empty_party());
    }

    /// Forgets the quest.
    pub fn reset_quest(&mut self)
        ensures
            final(self)@ == (EncounterModel { quest_id: None, quest_timer: None, ..old(self)@ }),
    {
        self.quest_id = None;
        self.quest_timer = None;
    }

    /// Adds a report to the log.
    pub fn push_event(&mut self, timestamp: i64, event: Message)
        ensures
            final(self)@ == (EncounterModel {
                raw_event_log: old(self)@.raw_event_log.push((timestamp, event)),
                ..old(self)@
            }),
    {
        self.raw_event_log.push((timestamp, event));
    }

    /// Everything that was reported, oldest first.
    pub fn event_log(&self) -> (log: &[(i64, Message)])
        ensures
            log@ == self@.raw_event_log,
    {
        self.raw_event_log.as_slice()
    }
}

} // verus!
