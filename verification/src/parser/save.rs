//! Ending an encounter, and what is saved of it.
//!
//! Saving itself is not done here. Where an encounter is to be saved, the functions
//! below hand out the row for the database; its `data` column is the encounter as it
//! stands at that moment.

use vstd::prelude::*;

use crate::clock::{MAX_UTC_MILLIS, MIN_UTC_MILLIS};
use crate::constants::CharacterType;
use crate::derived::{
    comparable, is_primary_target, lasting, EnemyState, ParserStatus, StartTimeOutOfRange,
};
use crate::encounter::{empty_party, slot_model, EncounterModel, PlayerDataModel, PARTY_SIZE};
use crate::parser::live::{can_flush, flushed, update_due, with_status};
use crate::parser::{Parser, ParserModel};
use crate::protocol::{AreaEnterEvent, QuestCompleteEvent};

verus! {

/// How long an encounter may go without an event before it is saved, in milliseconds.
pub const AUTO_SAVE_INACTIVITY_MS: i64 = 60_000;

/// The version of the saved form.
pub const LOG_VERSION: u32 = 1;

/// The actor type of Sir Barrold, the training dummy.
pub const SIR_BARROLD_ACTOR_TYPE: u32 = 0xA379_AC65;

/// A player as a saved encounter lists it.
#[derive(Debug)]
pub struct LogPlayer {
    pub name: String,
    pub character_type: CharacterType,
}

/// A saved encounter, but for the encounter itself.
#[derive(Debug)]
pub struct LogRow {
    /// When the encounter started, in milliseconds since 1970.
    pub time: i64,
    /// How long it lasted, in milliseconds.
    pub duration: i64,
    pub version: u32,
    /// The type of the enemy that took the most damage.
    pub primary_target: Option<u32>,
    pub players: Vec<Option<LogPlayer>>,
    pub quest_id: Option<u32>,
    pub quest_elapsed_time: Option<u32>,
    pub quest_completed: bool,
}

/// What a `LogRow` says.
#[verifier::ext_equal]
pub struct LogRowModel {
    pub time: i64,
    pub duration: i64,
    pub version: u32,
    pub primary_target: Option<u32>,
    pub players: Seq<Option<(Seq<char>, CharacterType)>>,
    pub quest_id: Option<u32>,
    pub quest_elapsed_time: Option<u32>,
    pub quest_completed: bool,
}

/// What an entry of the list of players says.
pub open spec fn log_player_model(player: Option<LogPlayer>) -> Option<(Seq<char>, CharacterType)> {
    match player {
        Some(player) => Some((player.name@, player.character_type)),
        None => None,
    }
}

impl View for LogRow {
    type V = LogRowModel;

    open spec fn view(&self) -> LogRowModel {
        LogRowModel {
            time: self.time,
            duration: self.duration,
            version: self.version,
            primary_target: self.primary_target,
            players: self.players@.map_values(|player: Option<LogPlayer>| log_player_model(player)),
            quest_id: self.quest_id,
            quest_elapsed_time: self.quest_elapsed_time,
            quest_completed: self.quest_completed,
        }
    }
}

/// A player as a saved encounter lists it.
pub open spec fn listed(slot: Option<PlayerDataModel>) -> Option<(Seq<char>, CharacterType)> {
    match slot {
        Some(player) => Some((player.display_name, player.character_type)),
        None => None,
    }
}

/// The type of the enemy that took the most damage.
pub open spec fn primary_type(targets: Map<u32, EnemyState>) -> Option<u32> {
    if exists|index: u32| is_primary_target(targets, index) {
        let index = choose|index: u32| is_primary_target(targets, index);
        Some(targets[index].raw_target_type)
    } else {
        None
    }
}

/// An encounter as it is saved. The quest of a fight with Sir Barrold is left out, as
/// it may be an old one.
pub open spec fn saved_encounter(parser: ParserModel) -> EncounterModel {
    if primary_type(parser.derived_state.targets) == Some(SIR_BARROLD_ACTOR_TYPE) {
        EncounterModel { quest_id: None, quest_timer: None, ..parser.encounter }
    } else {
        parser.encounter
    }
}

/// The row under which an encounter is saved.
pub open spec fn log_row(parser: ParserModel) -> LogRowModel {
    let encounter = saved_encounter(parser);
    LogRowModel {
        time: parser.derived_state.start_time,
        duration: lasting(parser.derived_state.start_time, parser.derived_state.end_time),
        version: LOG_VERSION,
        primary_target: primary_type(parser.derived_state.targets),
        players: encounter.player_data.map_values(|slot: Option<PlayerDataModel>| listed(slot)),
        quest_id: encounter.quest_id,
        quest_elapsed_time: encounter.quest_timer,
        quest_completed: encounter.quest_completed,
    }
}

/// Whether the start of the encounter can be saved.
pub open spec fn can_save(parser: ParserModel) -> bool {
    MIN_UTC_MILLIS <= parser.derived_state.start_time <= MAX_UTC_MILLIS
}

/// A parser after a row was asked for.
pub open spec fn after_save(parser: ParserModel) -> ParserModel {
    if can_save(parser) {
        ParserModel { encounter: saved_encounter(parser), ..parser }
    } else {
        parser
    }
}

/// `row` is what is to be saved of `parser`.
pub open spec fn saves(parser: ParserModel, row: Result<LogRow, StartTimeOutOfRange>) -> bool {
    match row {
        Ok(row) => can_save(parser) && row@ == log_row(parser),
        Err(_) => !can_save(parser),
    }
}

/// Whether an encounter is in progress that has seen damage.
pub open spec fn worth_saving(parser: ParserModel) -> bool {
    parser.status == ParserStatus::InProgress && parser.derived_state.total_damage > 0
}

/// Whether nothing has happened for long enough.
pub open spec fn inactive(parser: ParserModel, now: i64) -> bool {
    now - parser.derived_state.end_time >= AUTO_SAVE_INACTIVITY_MS
}

/// A parser that has stopped and saved.
pub open spec fn finished(parser: ParserModel) -> ParserModel {
    after_save(with_status(parser, ParserStatus::Stopped))
}

/// A parser that knows which quest was left behind.
pub open spec fn with_last_quest(parser: ParserModel, quest_id: u32) -> ParserModel {
    ParserModel {
        encounter: EncounterModel { quest_id: Some(quest_id), ..parser.encounter },
        ..parser
    }
}

/// A parser after an area was entered, up to the point where the encounter is saved:
/// an encounter in progress has stopped, and is saved if it has seen damage.
pub open spec fn area_entered(parser: ParserModel, event: AreaEnterEvent) -> ParserModel {
    let parser = with_last_quest(parser, event.last_known_quest_id);
    if worth_saving(parser) {
        finished(parser)
    } else if parser.status == ParserStatus::InProgress {
        with_status(parser, ParserStatus::Stopped)
    } else {
        with_status(parser, ParserStatus::Waiting)
    }
}

/// A parser that is ready for the party of the next area.
pub open spec fn area_prepared(parser: ParserModel) -> ParserModel {
    ParserModel {
        encounter: EncounterModel {
            quest_completed: false,
            player_data: empty_party(),
            ..parser.encounter
        },
        ..parser
    }
}

/// A parser that knows that a quest was completed.
pub open spec fn with_completed_quest(parser: ParserModel, event: QuestCompleteEvent) -> ParserModel {
    ParserModel {
        encounter: EncounterModel {
            quest_id: Some(event.quest_id),
            quest_timer: Some(event.elapsed_time_in_secs),
            quest_completed: true,
            ..parser.encounter
        },
        ..parser
    }
}

/// A parser after a quest was completed: an encounter in progress has stopped, and is
/// saved if it has seen damage.
pub open spec fn quest_completed(parser: ParserModel, event: QuestCompleteEvent) -> ParserModel {
    let parser = with_completed_quest(parser, event);
    if worth_saving(parser) {
        finished(parser)
    } else if parser.status == ParserStatus::InProgress {
        with_status(parser, ParserStatus::Stopped)
    } else {
        parser
    }
}

/// `row` is what is to be saved of `parser` if nothing has happened for long enough; nothing
/// if it is not the time, or nothing is worth saving.
pub open spec fn saves_idle(
    parser: ParserModel,
    now: i64,
    row: Option<Result<LogRow, StartTimeOutOfRange>>,
) -> bool {
    match row {
        Some(row) => worth_saving(parser) && inactive(parser, now) && saves(
            flushed(parser, now),
            row,
        ),
        None => !(worth_saving(parser) && inactive(parser, now)),
    }
}

/// A parser after it was looked at whether anything has happened lately.
pub open spec fn idled(parser: ParserModel, now: i64) -> ParserModel {
    if worth_saving(parser) && inactive(parser, now) {
        finished(flushed(parser, now))
    } else {
        flushed(parser, now)
    }
}

/// `row` is what is to be saved of `parser` at the end of a battle.
pub open spec fn saves_battle(
    parser: ParserModel,
    row: Option<Result<LogRow, StartTimeOutOfRange>>,
) -> bool {
    match row {
        Some(row) => worth_saving(parser) && saves(parser, row),
        None => !worth_saving(parser),
    }
}

/// A parser after the end of a battle.
pub open spec fn battle_ended(parser: ParserModel) -> ParserModel {
    if worth_saving(parser) {
        finished(parser)
    } else {
        parser
    }
}

/// `row` is what is to be saved of `parser` when an area is entered.
pub open spec fn saves_on_leaving(
    parser: ParserModel,
    event: AreaEnterEvent,
    row: Option<Result<LogRow, StartTimeOutOfRange>>,
) -> bool {
    match row {
        Some(row) => worth_saving(parser) && saves(
            with_last_quest(parser, event.last_known_quest_id),
            row,
        ),
        None => !worth_saving(parser),
    }
}

/// `row` is what is to be saved of `parser` when a quest is completed.
pub open spec fn saves_quest(
    parser: ParserModel,
    event: QuestCompleteEvent,
    row: Option<Result<LogRow, StartTimeOutOfRange>>,
) -> bool {
    match row {
        Some(row) => worth_saving(parser) && saves(with_completed_quest(parser, event), row),
        None => !worth_saving(parser),
    }
}

/// Only one enemy is the primary target.
proof fn lemma_primary_unique(targets: Map<u32, EnemyState>, a: u32, b: u32)
    requires
        is_primary_target(targets, a),
        is_primary_target(targets, b),
    ensures
        a == b,
{
    assert(targets.contains_key(a));
    assert(targets.contains_key(b));
}

impl Parser {
    /// Hands out the row under which the encounter is to be saved.
    pub fn save_encounter_to_db(&mut self) -> (row: Result<LogRow, StartTimeOutOfRange>)
        requires
            comparable(old(self).derived_state.start_time, old(self).derived_state.end_time),
        ensures
            saves(old(self)@, row),
            final(self)@ == after_save(old(self)@),
    {
        let duration: i64 = self.derived_state.duration();
        let time: i64 = match self.derived_state.utc_start_time() {
            Ok(time) => time,
            Err(error) => {
                return Err(error);
            },
        };
        let primary_target: Option<u32> = match self.derived_state.get_primary_target() {
            Some(target) => Some(target.raw_target_type),
            None => None,
        };
        proof {
            let targets = self.derived_state@.targets;
            if primary_target is Some {
                let shown = choose|index: u32| #[trigger]
                    is_primary_target(targets, index) && primary_target == Some(
                        targets[index].raw_target_type,
                    );
                lemma_primary_unique(
                    targets,
                    shown,
                    choose|index: u32| is_primary_target(targets, index),
                );
            } else {
                assert forall|index: u32| !is_primary_target(targets, index) by {
                    assert(!targets.dom().contains(index));
                }
            }
            assert(primary_target == primary_type(targets));
        }
        let barrold: bool = match primary_target {
            Some(target) => target == SIR_BARROLD_ACTOR_TYPE,
            None => false,
        };
        if barrold {
            self.encounter.reset_quest();
        }
        let ghost encounter = self.encounter@;
        assert(encounter == saved_encounter(old(self)@));
        let mut players: Vec<Option<LogPlayer>> = Vec::new();
        let mut i: usize = 0;
        while i < PARTY_SIZE
            invariant
                i <= PARTY_SIZE,
                encounter == self.encounter@,
                players@.len() == i,
                forall|k: int|
                    0 <= k < i ==> log_player_model(#[trigger] players@[k]) == listed(
                        encounter.player_data[k],
                    ),
            decreases PARTY_SIZE - i,
        {
            assert(encounter.player_data[i as int] == slot_model(
                self.encounter.player_data@[i as int],
            ));
            let player: Option<LogPlayer> = match &self.encounter.player_data[i] {
                Some(player) => Some(
                    LogPlayer {
                        name: player.display_name.clone(),
                        character_type: player.character_type,
                    },
                ),
                None => None,
            };
            players.push(player);
            i = i + 1;
        }
        let row = LogRow {
            time,
            duration,
            version: LOG_VERSION,
            primary_target,
            players,
            quest_id: self.encounter.quest_id,
            quest_elapsed_time: self.encounter.quest_timer,
            quest_completed: self.encounter.quest_completed,
        };
        assert(row@.players == encounter.player_data.map_values(
            |slot: Option<PlayerDataModel>| listed(slot),
        ));
        Ok(row)
    }

    /// Stops the encounter, and hands out the row under which it is to be saved.
    pub fn finish_and_save_encounter(&mut self) -> (row: Result<LogRow, StartTimeOutOfRange>)
        requires
            comparable(old(self).derived_state.start_time, old(self).derived_state.end_time),
        ensures
            saves(old(self)@, row),
            final(self)@ == finished(old(self)@),
    {
        self.update_status(ParserStatus::Stopped);
        self.save_encounter_to_db()
    }

    /// Ends an encounter that has seen damage, but none of it lately. Tells whether the window
    /// is to be updated first, and hands out the row under which the encounter is to be saved.
    pub fn auto_save_if_inactive(&mut self, now: i64) -> (outcome: (
        bool,
        Option<Result<LogRow, StartTimeOutOfRange>>,
    ))
        requires
            can_flush(old(self)@, now),
            worth_saving(old(self)@) ==> comparable(old(self).derived_state.end_time, now)
                && comparable(old(self).derived_state.start_time, old(self).derived_state.end_time),
        ensures
            outcome.0 == update_due(old(self)@, now),
            saves_idle(old(self)@, now, outcome.1),
            final(self)@ == idled(old(self)@, now),
    {
        let send: bool = self.flush_pending_encounter_update(now);
        if self.status != ParserStatus::InProgress || !self.has_damage() || now
            - self.derived_state.end_time < AUTO_SAVE_INACTIVITY_MS {
            return (send, None);
        }
        (send, Some(self.finish_and_save_encounter()))
    }

    /// Ends an encounter that has seen damage, at the end of a battle. Hands out the row
    /// under which it is to be saved.
    pub fn on_battle_end_event(&mut self) -> (row: Option<Result<LogRow, StartTimeOutOfRange>>)
        requires
            worth_saving(old(self)@) ==> comparable(
                old(self).derived_state.start_time,
                old(self).derived_state.end_time,
            ),
        ensures
            saves_battle(old(self)@, row),
            final(self)@ == battle_ended(old(self)@),
    {
        if self.status != ParserStatus::InProgress || !self.has_damage() {
            return None;
        }
        Some(self.finish_and_save_encounter())
    }

    /// Takes in that an area was entered. If an encounter was in progress it stops, as the
    /// instance was left, and the row under which it is to be saved is handed out if there
    /// was damage. `prepare_area` is to follow, once the encounter is saved.
    pub fn on_area_enter_event(&mut self, event: AreaEnterEvent) -> (row: Option<
        Result<LogRow, StartTimeOutOfRange>,
    >)
        requires
            worth_saving(old(self)@) ==> comparable(
                old(self).derived_state.start_time,
                old(self).derived_state.end_time,
            ),
        ensures
            final(self)@ == area_entered(old(self)@, event),
            saves_on_leaving(old(self)@, event, row),
    {
        self.encounter.quest_id = Some(event.last_known_quest_id);
        if self.status == ParserStatus::InProgress {
            if self.has_damage() {
                return Some(self.finish_and_save_encounter());
            }
            self.update_status(ParserStatus::Stopped);
        } else {
            self.update_status(ParserStatus::Waiting);
        }
        None
    }

    /// Makes room for the party of the area that was entered.
    pub fn prepare_area(&mut self)
        ensures
            final(self)@ == area_prepared(old(self)@),
    {
        self.encounter.quest_completed = false;
        self.encounter.reset_player_data();
    }

    /// Takes in that a quest was completed. If an encounter was in progress it stops, and
    /// the row under which it is to be saved is handed out if there was damage.
    pub fn on_quest_complete_event(&mut self, event: QuestCompleteEvent) -> (row: Option<
        Result<LogRow, StartTimeOutOfRange>,
    >)
        requires
            worth_saving(old(self)@) ==> comparable(
                old(self).derived_state.start_time,
                old(self).derived_state.end_time,
            ),
        ensures
            final(self)@ == quest_completed(old(self)@, event),
            saves_quest(old(self)@, event, row),
    {
        self.encounter.quest_id = Some(event.quest_id);
        self.encounter.quest_timer = Some(event.elapsed_time_in_secs);
        self.encounter.quest_completed = true;
        if self.status == ParserStatus::InProgress {
            if self.has_damage() {
                return Some(self.finish_and_save_encounter());
            }
            self.update_status(ParserStatus::Stopped);
        }
        None
    }
}

} // verus!
