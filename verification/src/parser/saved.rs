//! What is saved of an encounter, and when.

use vstd::prelude::*;

use crate::constants::EnemyType;
use crate::derived::{EnemyState, StartTimeOutOfRange};
use crate::encounter::{hits_as_messages, EncounterModel};
use crate::parser::live::flushed;
use crate::parser::replay::{
    holding_hits, opened, opened_record, recorded_log, reparsed, replay, replay_rules, replay_start,
};
use crate::parser::save::{
    area_entered, area_prepared, battle_ended, can_save, finished, idled, inactive, log_row,
    primary_type, quest_completed, saves, saves_battle, saves_idle, saves_on_leaving, saves_quest,
    with_completed_quest, with_last_quest, worth_saving, LogRow,
};
use crate::parser::{first_time, lemma_first_hit_time, ParserModel};
use crate::protocol::{AreaEnterEvent, DamageEvent, Message, QuestCompleteEvent};

verus! {

/// Whether no enemy took more damage than enemy `index`, and none of those that took as much
/// has a smaller index.
pub open spec fn took_most(targets: Map<u32, EnemyState>, index: u32) -> bool {
    &&& targets.dom().contains(index)
    &&& forall|other: u32| #[trigger]
        targets.dom().contains(other) ==> targets[other].total_damage <= targets[index].total_damage
    &&& forall|other: u32| #[trigger]
        targets.dom().contains(other) && targets[other].total_damage == targets[index].total_damage
            ==> index <= other
}

/// The enemy that an encounter is saved under is the one that took the most damage.
pub proof fn law_primary_target_took_most(targets: Map<u32, EnemyState>, index: u32)
    requires
        took_most(targets, index),
    ensures
        primary_type(targets) == Some(targets[index].raw_target_type),
{
    assert(crate::derived::is_primary_target(targets, index)) by {
        assert forall|other: u32| #[trigger] targets.contains_key(other) implies {
            ||| targets[other].total_damage < targets[index].total_damage
            ||| targets[other].total_damage == targets[index].total_damage && index <= other
        } by {
            assert(targets.dom().contains(other));
        }
    }
    let chosen = choose|chosen: u32| crate::derived::is_primary_target(targets, chosen);
    assert(crate::derived::is_primary_target(targets, chosen));
    assert(targets.contains_key(chosen) && targets.contains_key(index));
    assert(targets.dom().contains(chosen));
}

/// An encounter without enemies is saved under none.
pub proof fn law_no_target_without_enemies(targets: Map<u32, EnemyState>)
    requires
        targets.dom().is_empty(),
    ensures
        primary_type(targets) is None,
{
    assert forall|index: u32| !crate::derived::is_primary_target(targets, index) by {
        assert(!targets.dom().contains(index));
    }
}

/// The row of a saved encounter tells when it started, how long it lasted (a millisecond at
/// least), the players slot by slot, and the quest; a fight with the training dummy has none.
pub proof fn law_rows_tell_the_encounter(
    parser: ParserModel,
    row: Result<LogRow, StartTimeOutOfRange>,
    i: int,
)
    requires
        saves(parser, row),
    ensures
        row is Ok <==> -8_334_601_228_800_000 <= parser.derived_state.start_time
            <= 8_210_266_876_799_999,
        row matches Ok(row) ==> ({
            let lasted = parser.derived_state.end_time - parser.derived_state.start_time;
            let dummy = primary_type(parser.derived_state.targets) == Some(0xA379_AC65u32);
            let slots = parser.encounter.player_data;
            &&& row.time == parser.derived_state.start_time
            &&& 1 <= lasted <= i64::MAX ==> row.duration == lasted
            &&& lasted < 1 ==> row.duration == 1
            &&& row.version == 1
            &&& row.primary_target == primary_type(parser.derived_state.targets)
            &&& row.quest_completed == parser.encounter.quest_completed
            &&& dummy ==> row.quest_id is None && row.quest_elapsed_time is None
            &&& !dummy ==> row.quest_id == parser.encounter.quest_id && row.quest_elapsed_time
                == parser.encounter.quest_timer
            &&& row.players@.len() == slots.len()
            &&& 0 <= i < slots.len() ==> (row.players@[i] is Some <==> slots[i] is Some)
            &&& 0 <= i < slots.len() && slots[i] is Some ==> row.players@[i]->0.name@
                == slots[i]->0.display_name && row.players@[i]->0.character_type
                == slots[i]->0.character_type
        }),
{
    if let Ok(saved) = row {
        let shown = saved@;
        assert(shown == log_row(parser));
        assert(shown.players.len() == saved.players@.len());
        if 0 <= i < parser.encounter.player_data.len() {
            assert(shown.players[i] == crate::parser::save::log_player_model(saved.players@[i]));
            assert(log_row(parser).players[i] == crate::parser::save::listed(
                parser.encounter.player_data[i],
            ));
        }
    }
}

/// Whether two parsers hold the same encounter, but for the quest that it is part of.
pub open spec fn same_but_quest(a: ParserModel, b: ParserModel) -> bool {
    &&& a.encounter.player_data == b.encounter.player_data
    &&& a.encounter.event_log == b.encounter.event_log
    &&& a.encounter.raw_event_log == b.encounter.raw_event_log
    &&& a.derived_state.total_damage == b.derived_state.total_damage
    &&& a.derived_state.start_time == b.derived_state.start_time
    &&& a.derived_state.end_time == b.derived_state.end_time
    &&& a.derived_state.rate_millis == b.derived_state.rate_millis
    &&& a.derived_state.stun_values == b.derived_state.stun_values
    &&& a.derived_state.party == b.derived_state.party
    &&& a.derived_state.targets == b.derived_state.targets
    &&& a.id_transformation_parents == b.id_transformation_parents
    &&& a.death_counts == b.death_counts
    &&& a.last_encounter_emit_at == b.last_encounter_emit_at
    &&& a.encounter_update_pending == b.encounter_update_pending
}

/// An encounter is worth saving while it is in progress and has seen damage, and it is saved
/// once nothing was hit for a minute.
pub proof fn law_when_to_save(parser: ParserModel, now: i64)
    ensures
        worth_saving(parser) <==> parser.status is InProgress && parser.derived_state.total_damage > 0,
        inactive(parser, now) <==> now - parser.derived_state.end_time >= 60_000,
        can_save(parser) <==> -8_334_601_228_800_000 <= parser.derived_state.start_time
            <= 8_210_266_876_799_999,
{
}

/// Saving stops the encounter and keeps it as it is; only the quest of a fight with the training
/// dummy is forgotten.
pub proof fn law_saving_stops(parser: ParserModel)
    ensures
        finished(parser).status is Stopped,
        finished(parser).derived_state.status is Stopped,
        same_but_quest(finished(parser), parser),
        finished(parser).encounter.quest_completed == parser.encounter.quest_completed,
        can_save(parser) && primary_type(parser.derived_state.targets) == Some(0xA379_AC65u32)
            ==> finished(parser).encounter.quest_id is None
            && finished(parser).encounter.quest_timer is None,
        !(can_save(parser) && primary_type(parser.derived_state.targets) == Some(0xA379_AC65u32))
            ==> finished(parser).encounter.quest_id == parser.encounter.quest_id
            && finished(parser).encounter.quest_timer == parser.encounter.quest_timer,
{
}

/// Entering an area ends an encounter in progress; otherwise the parser waits for the next. The
/// quest is the one that was left, unless the encounter is saved as one with the training dummy.
/// Then the party is emptied and the quest is no longer complete.
pub proof fn law_entering_an_area(parser: ParserModel, event: AreaEnterEvent, slot: int)
    ensures
        parser.status is InProgress ==> area_entered(parser, event).status is Stopped,
        !(parser.status is InProgress) ==> area_entered(parser, event).status is Waiting,
        same_but_quest(area_entered(parser, event), parser),
        !worth_saving(parser) ==> area_entered(parser, event).encounter.quest_id == Some(
            event.last_known_quest_id,
        ) && area_entered(parser, event).encounter.quest_timer == parser.encounter.quest_timer,
        primary_type(parser.derived_state.targets) != Some(0xA379_AC65u32) ==> area_entered(
            parser,
            event,
        ).encounter.quest_id == Some(event.last_known_quest_id),
        area_entered(parser, event).encounter.quest_completed == parser.encounter.quest_completed,
        !area_prepared(parser).encounter.quest_completed,
        area_prepared(parser).encounter.player_data.len() == 4,
        0 <= slot < 4 ==> area_prepared(parser).encounter.player_data[slot] is None,
        area_prepared(parser).encounter.quest_id == parser.encounter.quest_id,
        area_prepared(parser).encounter.quest_timer == parser.encounter.quest_timer,
        area_prepared(parser).encounter.raw_event_log == parser.encounter.raw_event_log,
        area_prepared(parser).derived_state == parser.derived_state,
        area_prepared(parser).status == parser.status,
{
}

/// Completing a quest ends an encounter in progress, and notes the quest and its time, unless the
/// encounter is saved as one with the training dummy.
pub proof fn law_completing_a_quest(parser: ParserModel, event: QuestCompleteEvent)
    ensures
        parser.status is InProgress ==> quest_completed(parser, event).status is Stopped,
        !(parser.status is InProgress) ==> quest_completed(parser, event).status == parser.status,
        same_but_quest(quest_completed(parser, event), parser),
        quest_completed(parser, event).encounter.quest_completed,
        !worth_saving(parser) || primary_type(parser.derived_state.targets) != Some(0xA379_AC65u32)
            ==> quest_completed(parser, event).encounter.quest_id == Some(event.quest_id)
            && quest_completed(parser, event).encounter.quest_timer == Some(
            event.elapsed_time_in_secs,
        ),
{
}

/// The log of an older record holds its hits one for one, with their times; that of a newer one
/// is taken as it is.
pub proof fn law_older_records_keep_their_hits(encounter: EncounterModel, i: int)
    ensures
        encounter.raw_event_log.len() > 0 ==> recorded_log(encounter) == encounter.raw_event_log,
        encounter.raw_event_log.len() == 0 ==> ({
            let log = recorded_log(encounter);
            &&& log.len() == encounter.event_log.len()
            &&& 0 <= i < log.len() ==> log[i].0 == encounter.event_log[i].0 && (
            log[i].1 matches Message::DamageEvent(hit) && hit == encounter.event_log[i].1)
        }),
        hits_as_messages(encounter.event_log).len() == encounter.event_log.len(),
        0 <= i < encounter.event_log.len() ==> hits_as_messages(encounter.event_log)[i].0
            == encounter.event_log[i].0 && hits_as_messages(encounter.event_log)[i].1
            == Message::DamageEvent(encounter.event_log[i].1),
{
}

/// A row is handed out exactly if an encounter was in progress and has seen damage. Where it is
/// because an area was entered, it tells of the quest that was left, and whether that was
/// completed before.
pub proof fn law_leaving_saves_the_quest(
    parser: ParserModel,
    event: AreaEnterEvent,
    row: Option<Result<LogRow, StartTimeOutOfRange>>,
)
    requires
        saves_on_leaving(parser, event, row),
    ensures
        row is Some <==> parser.status is InProgress && parser.derived_state.total_damage > 0,
        row matches Some(Ok(row)) ==> ({
            let dummy = primary_type(parser.derived_state.targets) == Some(0xA379_AC65u32);
            &&& row.time == parser.derived_state.start_time
            &&& row.quest_completed == parser.encounter.quest_completed
            &&& !dummy ==> row.quest_id == Some(event.last_known_quest_id)
                && row.quest_elapsed_time == parser.encounter.quest_timer
            &&& dummy ==> row.quest_id is None && row.quest_elapsed_time is None
        }),
{
    if let Some(Ok(saved)) = row {
        assert(saved@ == log_row(with_last_quest(parser, event.last_known_quest_id)));
    }
}

/// Where a row is handed out because a quest was completed, it tells of that quest, and of the
/// time it took.
pub proof fn law_completing_saves_the_quest(
    parser: ParserModel,
    event: QuestCompleteEvent,
    row: Option<Result<LogRow, StartTimeOutOfRange>>,
)
    requires
        saves_quest(parser, event, row),
    ensures
        row is Some <==> parser.status is InProgress && parser.derived_state.total_damage > 0,
        row matches Some(Ok(row)) ==> ({
            let dummy = primary_type(parser.derived_state.targets) == Some(0xA379_AC65u32);
            &&& row.time == parser.derived_state.start_time
            &&& row.quest_completed
            &&& !dummy ==> row.quest_id == Some(event.quest_id) && row.quest_elapsed_time == Some(
                event.elapsed_time_in_secs,
            )
            &&& dummy ==> row.quest_id is None && row.quest_elapsed_time is None
        }),
{
    if let Some(Ok(saved)) = row {
        assert(saved@ == log_row(with_completed_quest(parser, event)));
    }
}

/// The end of a battle saves an encounter in progress that has seen damage, as it stands, and
/// stops it; otherwise it changes nothing.
pub proof fn law_battles_are_saved(
    parser: ParserModel,
    row: Option<Result<LogRow, StartTimeOutOfRange>>,
)
    requires
        saves_battle(parser, row),
    ensures
        row is Some <==> parser.status is InProgress && parser.derived_state.total_damage > 0,
        row matches Some(row) ==> saves(parser, row),
        row is Some ==> battle_ended(parser).status is Stopped && same_but_quest(
            battle_ended(parser),
            parser,
        ),
        row is None ==> battle_ended(parser) == parser,
{
}

/// An encounter that has seen damage is saved and stopped once nothing was hit for a minute, and
/// not before. Saved or not, nothing else but what waits to be sent changes.
pub proof fn law_idle_encounters_are_saved(
    parser: ParserModel,
    now: i64,
    row: Option<Result<LogRow, StartTimeOutOfRange>>,
)
    requires
        saves_idle(parser, now, row),
    ensures
        row is Some <==> parser.status is InProgress && parser.derived_state.total_damage > 0 && now
            - parser.derived_state.end_time >= 60_000,
        row matches Some(row) ==> saves(flushed(parser, now), row),
        row matches Some(Ok(row)) ==> row.time == parser.derived_state.start_time
            && row.quest_completed == parser.encounter.quest_completed,
        row is Some ==> idled(parser, now).status is Stopped,
        row is None ==> idled(parser, now).status == parser.status && idled(parser, now).encounter
            == parser.encounter && idled(parser, now).derived_state == parser.derived_state,
        idled(parser, now).encounter.raw_event_log == parser.encounter.raw_event_log,
        idled(parser, now).encounter.player_data == parser.encounter.player_data,
        idled(parser, now).derived_state.party == parser.derived_state.party,
        idled(parser, now).derived_state.total_damage == parser.derived_state.total_damage,
        idled(parser, now).death_counts == parser.death_counts,
{
    if let Some(Ok(saved)) = row {
        assert(saved@ == log_row(flushed(parser, now)));
    }
}

/// Parsing again, and opening an encounter, leaves the encounter as it is; only the log of an
/// older record is filled from its hits.
pub proof fn law_encounters_are_kept(
    parser: ParserModel,
    gauges: bool,
    targets: Seq<EnemyType>,
    encounter: EncounterModel,
)
    ensures
        reparsed(parser, gauges, targets).encounter == parser.encounter,
        reparsed(parser, gauges, targets).status == parser.status,
        reparsed(parser, gauges, targets).derived_state.status == parser.status,
        opened(encounter).encounter == encounter,
        opened(encounter).status is Waiting,
        opened(encounter) == reparsed(opened(encounter), true, Seq::empty()),
        opened_record(encounter).status is Waiting,
        opened_record(encounter).encounter.raw_event_log == recorded_log(encounter),
        opened_record(encounter).encounter.event_log == encounter.event_log,
        opened_record(encounter).encounter.player_data == encounter.player_data,
        opened_record(encounter).encounter.quest_id == encounter.quest_id,
        opened_record(encounter).encounter.quest_timer == encounter.quest_timer,
        opened_record(encounter).encounter.quest_completed == encounter.quest_completed,
{
    lemma_status(parser, gauges, targets, parser.encounter.raw_event_log);
}

proof fn lemma_status(
    parser: ParserModel,
    gauges: bool,
    targets: Seq<EnemyType>,
    log: Seq<(i64, Message)>,
)
    ensures
        replay(
            replay_start(parser.encounter.raw_event_log, parser.status),
            replay_rules(parser, gauges, targets),
            log,
        ).derived.status == parser.status,
    decreases log.len(),
{
    if log.len() > 0 {
        lemma_status(parser, gauges, targets, log.drop_last());
    }
}

/// A parser that holds hits of older logs has parsed nothing of them yet.
pub proof fn law_held_hits_are_kept(hits: Seq<(i64, DamageEvent)>, slot: int)
    ensures
        holding_hits(hits).encounter.event_log == hits,
        holding_hits(hits).encounter.raw_event_log.len() == 0,
        holding_hits(hits).encounter.quest_id is None,
        holding_hits(hits).encounter.quest_timer is None,
        !holding_hits(hits).encounter.quest_completed,
        0 <= slot < 4 ==> holding_hits(hits).encounter.player_data[slot] is None,
        holding_hits(hits).status is Stopped,
        holding_hits(hits).derived_state.total_damage == 0,
        holding_hits(hits).derived_state.party.dom().is_empty(),
        holding_hits(hits).derived_state.targets.dom().is_empty(),
        holding_hits(hits).death_counts.dom().is_empty(),
{
}

/// An encounter starts with its first hit; without a hit, with its first report.
pub proof fn law_first_hit_starts(log: Seq<(i64, Message)>, at: int)
    requires
        0 <= at < log.len(),
        forall|k: int| 0 <= k < at ==> !((#[trigger] log[k]).1 is DamageEvent),
    ensures
        log[at].1 is DamageEvent ==> first_time(log) == log[at].0,
        (forall|k: int| 0 <= k < log.len() ==> !((#[trigger] log[k]).1 is DamageEvent))
            ==> first_time(log) == log[0].0,
{
    if log[at].1 is DamageEvent {
        lemma_first_hit_time(log, at);
    }
    if forall|k: int| 0 <= k < log.len() ==> !((#[trigger] log[k]).1 is DamageEvent) {
        lemma_first_hit_time(log, log.len() as int);
    }
}

} // verus!
