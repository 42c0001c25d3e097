//! What the game process reports to the parser.

use vstd::prelude::*;

use crate::float32::Float32;

verus! {

/// The two ends of a hit: an actor and the actor it belongs to.
#[derive(Clone, Copy, Debug, PartialEq, Eq, Structural)]
pub struct Actor {
    /// Index of the actor.
    pub index: u32,
    /// Type hash of the actor.
    pub actor_type: u32,
    /// Index of the actor this one belongs to; its own if it stands alone.
    pub parent_index: u32,
    /// Type hash of the actor this one belongs to; its own if it stands alone.
    pub parent_actor_type: u32,
}

/// What kind of action a hit comes from.
#[derive(Clone, Copy, Debug, PartialEq, Eq, Hash, Structural)]
pub enum ActionType {
    LinkAttack,
    SBA,
    SupplementaryDamage(u32),
    DamageOverTime(u32),
    Normal(u32),
}

/// One hit.
#[derive(Clone, Copy, Debug, PartialEq, Eq, Structural)]
pub struct DamageEvent {
    pub source: Actor,
    pub target: Actor,
    pub damage: i32,
    pub flags: u64,
    pub action_id: ActionType,
    pub attack_rate: Option<Float32>,
    pub stun_value: Option<Float32>,
    pub damage_cap: Option<i32>,
}

/// An area was entered.
#[derive(Clone, Copy, Debug, PartialEq, Eq, Structural)]
pub struct AreaEnterEvent {
    pub last_known_quest_id: u32,
}

/// A quest was completed.
#[derive(Clone, Copy, Debug, PartialEq, Eq, Structural)]
pub struct QuestCompleteEvent {
    pub quest_id: u32,
    pub elapsed_time_in_secs: u32,
}

/// A skybound art gauge changed.
#[derive(Clone, Copy, Debug, PartialEq, Eq, Structural)]
pub struct OnUpdateSBAEvent {
    pub actor_index: u32,
    pub sba_value: Float32,
    pub sba_added: Float32,
}

/// A skybound art was requested.
#[derive(Clone, Copy, Debug, PartialEq, Eq, Structural)]
pub struct OnAttemptSBAEvent {
    pub actor_index: u32,
}

/// A skybound art was performed.
#[derive(Clone, Copy, Debug, PartialEq, Eq, Structural)]
pub struct OnPerformSBAEvent {
    pub actor_index: u32,
}

/// A skybound art chain was continued.
#[derive(Clone, Copy, Debug, PartialEq, Eq, Structural)]
pub struct OnContinueSBAChainEvent {
    pub actor_index: u32,
}

/// A player character went down.
#[derive(Clone, Copy, Debug, PartialEq, Eq, Structural)]
pub struct OnDeathEvent {
    pub actor_index: u32,
    pub death_counter: u32,
    /// Whether the counter is to be added, rather than a total.
    pub is_delta: bool,
}

/// A sigil as the game reports it.
#[derive(Clone, Copy, Debug, PartialEq, Eq, Structural)]
pub struct Sigil {
    pub first_trait_id: u32,
    pub first_trait_level: u32,
    pub second_trait_id: u32,
    pub second_trait_level: u32,
    pub sigil_id: u32,
    pub equipped_character: u32,
    pub sigil_level: u32,
    pub acquisition_count: u32,
    pub notification_enum: u32,
}

/// A weapon as the game reports it.
#[derive(Clone, Copy, Debug, PartialEq, Eq, Structural)]
pub struct WeaponInfo {
    pub weapon_id: u32,
    pub star_level: u32,
    pub plus_marks: u32,
    pub awakening_level: u32,
    pub trait_1_id: u32,
    pub trait_1_level: u32,
    pub trait_2_id: u32,
    pub trait_2_level: u32,
    pub trait_3_id: u32,
    pub trait_3_level: u32,
    pub wrightstone_id: u32,
    pub weapon_level: u32,
    pub weapon_hp: u32,
    pub weapon_attack: u32,
}

/// One overmastery as the game reports it.
#[derive(Clone, Copy, Debug, PartialEq, Eq, Structural)]
pub struct Overmastery {
    pub id: u32,
    pub flags: u32,
    pub value: Float32,
}

/// The overmasteries of a character.
#[derive(Clone, Debug, PartialEq, Eq)]
pub struct OvermasteryInfo {
    pub overmasteries: Vec<Overmastery>,
}

/// The stats of a character as the game reports them.
#[derive(Clone, Copy, Debug, PartialEq, Eq, Structural)]
pub struct PlayerStats {
    pub level: u32,
    pub total_hp: u32,
    pub total_attack: u32,
    pub stun_power: Float32,
    pub critical_rate: Float32,
    pub total_power: u32,
}

/// A player character was loaded, with everything known of it.
#[derive(Clone, Debug, PartialEq, Eq)]
pub struct PlayerLoadEvent {
    pub sigils: Vec<Sigil>,
    pub character_name: String,
    pub display_name: String,
    pub character_type: u32,
    pub party_index: u8,
    pub actor_index: u32,
    pub is_online: bool,
    pub weapon_info: WeaponInfo,
    pub overmastery_info: OvermasteryInfo,
    pub player_stats: PlayerStats,
}

/// Who stands in a party slot.
#[derive(Clone, Debug, PartialEq, Eq)]
pub struct PlayerIdentityEvent {
    pub character_name: String,
    pub display_name: String,
    pub character_type: u32,
    pub party_index: u8,
    pub actor_index: u32,
    pub is_online: bool,
}

/// What the player in a party slot has equipped, as far as it could be read.
#[derive(Clone, Debug, PartialEq, Eq)]
pub struct PlayerEquipmentEvent {
    pub sigils: Vec<Sigil>,
    pub weapon_info: Option<WeaponInfo>,
    pub overmastery_info: Option<OvermasteryInfo>,
    pub player_stats: Option<PlayerStats>,
    pub master_traits: Option<Vec<u32>>,
    pub character_type: u32,
    pub party_index: u8,
    pub actor_index: u32,
    pub is_online: bool,
}

/// Everything that can be reported.
#[derive(Clone, Debug, PartialEq, Eq)]
pub enum Message {
    OnAreaEnter(AreaEnterEvent),
    OnQuestComplete(QuestCompleteEvent),
    DamageEvent(DamageEvent),
    PlayerLoadEvent(PlayerLoadEvent),
    PlayerIdentityEvent(PlayerIdentityEvent),
    PlayerEquipmentEvent(PlayerEquipmentEvent),
    OnUpdateSBA(OnUpdateSBAEvent),
    OnAttemptSBA(OnAttemptSBAEvent),
    OnPerformSBA(OnPerformSBAEvent),
    OnContinueSBAChain(OnContinueSBAChainEvent),
    OnDeathEvent(OnDeathEvent),
    OnBattleEnd,
}

} // verus!
