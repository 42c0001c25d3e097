//! Running totals of one player.

use vstd::prelude::*;

use crate::constants::{character_of, CharacterType};
use crate::encounter::PlayerData;
use crate::float32::Float32;
use crate::protocol::{ActionType, DamageEvent};

use crate::cap_detection;
use crate::cap_detection::{cap_known, capped, capped_among, CritMultiplier};

verus! {

/// How many events a log may hold. Sums over that many hits fit in 64 bits.
pub const LOG_LIMIT: u32 = 0xFFFF_FFFF;

/// The largest damage of one hit.
pub const HIT_LIMIT: i32 = 0x7FFF_FFFF;

/// A hit together with what follows from it.
pub struct AdjustedDamageInstance<'a> {
    pub event: &'a DamageEvent,
    pub player_data: Option<&'a PlayerData>,
    pub stun_damage: Float32,
    pub is_capped: bool,
    pub cap_known: bool,
}

/// What an `AdjustedDamageInstance` says of its hit.
pub struct Hit {
    pub event: DamageEvent,
    pub stun_damage: Float32,
    pub is_capped: bool,
    pub cap_known: bool,
}

/// The stun value of a hit: zero unless one was reported.
pub open spec fn stun_of(event: DamageEvent) -> Float32 {
    match event.stun_value {
        Some(value) => value,
        None => Float32 { bits: 0 },
    }
}

/// What follows from a hit, given the multipliers of critical hits.
pub open spec fn hit_of(event: DamageEvent, multipliers: Seq<CritMultiplier>) -> Hit {
    Hit {
        event,
        stun_damage: stun_of(event),
        is_capped: capped(event.damage, event.damage_cap, multipliers),
        cap_known: cap_known(event.damage_cap),
    }
}

/// What follows from a hit, once the multipliers have been learned from `samples`.
pub open spec fn hit_among(event: DamageEvent, samples: Seq<(i32, i32)>) -> Hit {
    Hit {
        event,
        stun_damage: stun_of(event),
        is_capped: capped_among(event.damage, event.damage_cap, samples),
        cap_known: cap_known(event.damage_cap),
    }
}

impl<'a> AdjustedDamageInstance<'a> {
    /// The hit without the player.
    pub open spec fn hit(self) -> Hit {
        Hit {
            event: *self.event,
            stun_damage: self.stun_damage,
            is_capped: self.is_capped,
            cap_known: self.cap_known,
        }
    }

    /// What follows from a hit while no multiplier is known.
    pub fn from_damage_event(event: &'a DamageEvent, player_data: Option<&'a PlayerData>) -> (instance:
        Self)
        ensures
            instance.hit() == hit_of(*event, Seq::empty()),
            instance.player_data == player_data,
    {
        Self::from_damage_event_with_multipliers(event, player_data, &[])
    }

    /// What follows from a hit, given the multipliers of critical hits.
    pub fn from_damage_event_with_multipliers(
        event: &'a DamageEvent,
        player_data: Option<&'a PlayerData>,
        crit_multipliers: &[CritMultiplier],
    ) -> (instance: Self)
        ensures
            instance.hit() == hit_of(*event, crit_multipliers@),
            instance.player_data == player_data,
    {
        let stun_damage = match event.stun_value {
            Some(value) => value,
            None => Float32::zero(),
        };
        AdjustedDamageInstance {
            event,
            player_data,
            stun_damage,
            is_capped: cap_detection::is_capped(event.damage, event.damage_cap, crit_multipliers),
            cap_known: cap_detection::is_cap_known(event.damage_cap),
        }
    }
}

/// Running totals of one skill of one player.
#[derive(Clone, Copy, Debug, PartialEq, Eq, Structural)]
pub struct SkillState {
    pub action_type: ActionType,
    /// The character (or its pet, or its transformation) that dealt the hits.
    pub child_character_type: CharacterType,
    pub hits: u32,
    pub total_damage: u64,
    pub capped_hits: u32,
    pub cap_known_hits: u32,
}

/// A counter that goes up by one if `condition` holds.
pub open spec fn counted(count: u32, condition: bool) -> u32 {
    if condition {
        (count + 1) as u32
    } else {
        count
    }
}

/// A total that grows by the damage of a hit.
pub open spec fn summed(total: u64, damage: i32) -> u64 {
    (total + damage) as u64
}

/// A skill after one more hit.
pub open spec fn skill_after(skill: SkillState, hit: Hit) -> SkillState {
    SkillState {
        hits: counted(skill.hits, true),
        total_damage: summed(skill.total_damage, hit.event.damage),
        capped_hits: counted(skill.capped_hits, hit.is_capped),
        cap_known_hits: counted(skill.cap_known_hits, hit.cap_known),
        ..skill
    }
}

/// The skill that a hit starts.
pub open spec fn new_skill(event: DamageEvent) -> SkillState {
    SkillState {
        action_type: event.action_id,
        child_character_type: character_of(event.source.actor_type),
        hits: 0,
        total_damage: 0,
        capped_hits: 0,
        cap_known_hits: 0,
    }
}

/// Whether a hit belongs to a skill.
pub open spec fn is_skill_of(skill: SkillState, event: DamageEvent) -> bool {
    skill.action_type == event.action_id && skill.child_character_type == character_of(
        event.source.actor_type,
    )
}

/// Where the first skill that a hit belongs to stands; the length if there is none.
pub open spec fn skill_position(skills: Seq<SkillState>, event: DamageEvent) -> nat
    decreases skills.len(),
{
    if skills.len() == 0 {
        0
    } else {
        let before = skill_position(skills.drop_last(), event);
        if before < skills.len() - 1 || is_skill_of(skills.last(), event) {
            before
        } else {
            skills.len()
        }
    }
}

/// The skills after one more hit: the skill it belongs to takes it in, or a new one
/// is added behind the others.
pub open spec fn skills_after(skills: Seq<SkillState>, hit: Hit) -> Seq<SkillState> {
    let position = skill_position(skills, hit.event) as int;
    if position < skills.len() {
        skills.update(position, skill_after(skills[position], hit))
    } else {
        skills.push(skill_after(new_skill(hit.event), hit))
    }
}

impl SkillState {
    /// What `n` hits at most add up to.
    pub open spec fn bounded(self, n: nat) -> bool {
        &&& self.hits <= n
        &&& self.capped_hits <= n
        &&& self.cap_known_hits <= n
        &&& self.total_damage <= n * HIT_LIMIT
    }

    /// Takes in one more hit.
    pub fn update_from_damage_event(&mut self, damage_instance: &AdjustedDamageInstance)
        requires
            old(self).bounded((LOG_LIMIT - 1) as nat),
            damage_instance.event.damage >= 0,
        ensures
            *final(self) == skill_after(*old(self), damage_instance.hit()),
            forall|n: nat| #[trigger] old(self).bounded(n) ==> final(self).bounded(n + 1),
    {
        self.hits = self.hits + 1;
        self.total_damage = self.total_damage + damage_instance.event.damage as u64;
        if damage_instance.is_capped {
            self.capped_hits = self.capped_hits + 1;
        }
        if damage_instance.cap_known {
            self.cap_known_hits = self.cap_known_hits + 1;
        }
    }
}

pub proof fn lemma_skill_position(skills: Seq<SkillState>, event: DamageEvent, i: nat)
    requires
        i <= skills.len(),
        forall|k: int| 0 <= k < i ==> !is_skill_of(#[trigger] skills[k], event),
        i < skills.len() ==> is_skill_of(skills[i as int], event),
    ensures
        skill_position(skills, event) == i,
    decreases skills.len(),
{
    if skills.len() > 0 {
        let rest = skills.drop_last();
        if i < rest.len() {
            lemma_skill_position(rest, event, i);
        } else {
            lemma_skill_position(rest, event, rest.len());
        }
    }
}

/// Running totals of one player.
#[derive(Debug)]
pub struct PlayerState {
    /// Actor index of the player.
    pub index: u32,
    pub character_type: CharacterType,
    pub total_damage: u64,
    /// Level of the skybound art gauge.
    pub sba: Float32,
    /// The stun values of the hits, oldest first.
    pub stun_values: Vec<Float32>,
    pub skill_breakdown: Vec<SkillState>,
    pub capped_hits: u32,
    pub cap_known_hits: u32,
    pub deaths: u32,
}

/// What a `PlayerState` says.
#[verifier::ext_equal]
pub struct PlayerModel {
    pub index: u32,
    pub character_type: CharacterType,
    pub total_damage: u64,
    pub sba: Float32,
    pub stun_values: Seq<Float32>,
    pub skill_breakdown: Seq<SkillState>,
    pub capped_hits: u32,
    pub cap_known_hits: u32,
    pub deaths: u32,
}

impl View for PlayerState {
    type V = PlayerModel;

    open spec fn view(&self) -> PlayerModel {
        PlayerModel {
            index: self.index,
            character_type: self.character_type,
            total_damage: self.total_damage,
            sba: self.sba,
            stun_values: self.stun_values@,
            skill_breakdown: self.skill_breakdown@,
            capped_hits: self.capped_hits,
            cap_known_hits: self.cap_known_hits,
            deaths: self.deaths,
        }
    }
}

/// The player that a hit brings into the party.
pub open spec fn new_player(event: DamageEvent) -> PlayerModel {
    PlayerModel {
        index: event.source.parent_index,
        character_type: character_of(event.source.parent_actor_type),
        total_damage: 0,
        sba: Float32 { bits: 0 },
        stun_values: Seq::empty(),
        skill_breakdown: Seq::empty(),
        capped_hits: 0,
        cap_known_hits: 0,
        deaths: 0,
    }
}

/// A player after one more hit.
pub open spec fn player_after(player: PlayerModel, hit: Hit) -> PlayerModel {
    PlayerModel {
        total_damage: summed(player.total_damage, hit.event.damage),
        stun_values: player.stun_values.push(hit.stun_damage),
        skill_breakdown: skills_after(player.skill_breakdown, hit),
        capped_hits: counted(player.capped_hits, hit.is_capped),
        cap_known_hits: counted(player.cap_known_hits, hit.cap_known),
        ..player
    }
}

impl PlayerModel {
    /// What `n` hits at most add up to.
    pub open spec fn bounded(self, n: nat) -> bool {
        &&& self.total_damage <= n * HIT_LIMIT
        &&& self.capped_hits <= n
        &&& self.cap_known_hits <= n
        &&& forall|i: int|
            0 <= i < self.skill_breakdown.len() ==> (#[trigger] self.skill_breakdown[i]).bounded(n)
    }
}

/// One hit more raises the bound by one.
pub proof fn lemma_player_bounded(player: PlayerModel, hit: Hit, n: nat)
    requires
        player.bounded(n),
        n < LOG_LIMIT,
        hit.event.damage >= 0,
    ensures
        player_after(player, hit).bounded(n + 1),
{
    let after = player_after(player, hit);
    let skills = player.skill_breakdown;
    assert forall|i: int| 0 <= i < after.skill_breakdown.len() implies (
    #[trigger] after.skill_breakdown[i]).bounded(n + 1) by {
        if i < skills.len() {
            assert(skills[i].bounded(n));
        }
    }
}

/// A bound holds of more hits, too.
pub proof fn lemma_player_bounded_more(player: PlayerModel, n: nat, m: nat)
    requires
        player.bounded(n),
        n <= m,
    ensures
        player.bounded(m),
{
    assert forall|i: int| 0 <= i < player.skill_breakdown.len() implies (
    #[trigger] player.skill_breakdown[i]).bounded(m) by {
        assert(player.skill_breakdown[i].bounded(n));
    }
}

impl PlayerState {
    /// The player that a hit brings into the party.
    pub fn from_damage_event(event: &DamageEvent) -> (player: Self)
        ensures
            player@ == new_player(*event),
    {
        PlayerState {
            index: event.source.parent_index,
            character_type: CharacterType::from_hash(event.source.parent_actor_type),
            total_damage: 0,
            sba: Float32::zero(),
            stun_values: Vec::new(),
            skill_breakdown: Vec::new(),
            capped_hits: 0,
            cap_known_hits: 0,
            deaths: 0,
        }
    }

    /// Takes in one more hit.
    pub fn update_from_damage_event(&mut self, damage_instance: &AdjustedDamageInstance)
        requires
            old(self)@.bounded((LOG_LIMIT - 1) as nat),
            damage_instance.event.damage >= 0,
        ensures
            final(self)@ == player_after(old(self)@, damage_instance.hit()),
    {
        let ghost hit = damage_instance.hit();
        self.total_damage = self.total_damage + damage_instance.event.damage as u64;
        self.stun_values.push(damage_instance.stun_damage);
        if damage_instance.is_capped {
            self.capped_hits = self.capped_hits + 1;
        }
        if damage_instance.cap_known {
            self.cap_known_hits = self.cap_known_hits + 1;
        }
        let child: CharacterType = CharacterType::from_hash(damage_instance.event.source.actor_type);
        let action: ActionType = damage_instance.event.action_id;
        let ghost skills = self.skill_breakdown@;
        let mut i: usize = 0;
        while i < self.skill_breakdown.len() && !(self.skill_breakdown[i].action_type == action
            && self.skill_breakdown[i].child_character_type == child)
            invariant
                i <= self.skill_breakdown.len(),
                self.skill_breakdown@ == skills,
                action == hit.event.action_id,
                child == character_of(hit.event.source.actor_type),
                forall|k: int| 0 <= k < i ==> !is_skill_of(#[trigger] skills[k], hit.event),
            decreases self.skill_breakdown.len() - i,
        {
            i = i + 1;
        }
        proof {
            lemma_skill_position(skills, hit.event, i as nat);
        }
        if i < self.skill_breakdown.len() {
            let mut skill: SkillState = self.skill_breakdown[i];
            assert(old(self)@.skill_breakdown[i as int].bounded((LOG_LIMIT - 1) as nat));
            skill.update_from_damage_event(damage_instance);
            self.skill_breakdown.set(i, skill);
        } else {
            let mut skill: SkillState = SkillState {
                action_type: action,
                child_character_type: child,
                hits: 0,
                total_damage: 0,
                capped_hits: 0,
                cap_known_hits: 0,
            };
            skill.update_from_damage_event(damage_instance);
            self.skill_breakdown.push(skill);
        }
    }

    /// Sets the level of the skybound art gauge.
    pub fn set_sba(&mut self, sba: Float32)
        ensures
            final(self)@ == (PlayerModel { sba, ..old(self)@ }),
    {
        self.sba = sba;
    }

    /// Sets the number of deaths.
    pub fn set_deaths(&mut self, deaths: u32)
        ensures
            final(self)@ == (PlayerModel { deaths, ..old(self)@ }),
    {
        self.deaths = deaths;
    }
}

} // verus!
