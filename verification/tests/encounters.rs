use std::collections::HashMap;

use gbfr_logs::blob::BlobError;
use gbfr_logs::clock::{MAX_UTC_MILLIS, MIN_UTC_MILLIS};
use gbfr_logs::constants::{CharacterType, EnemyType, ID_ACTOR_TYPE, ID_TRANSFORMATION_ACTOR_TYPE};
use gbfr_logs::derived::{DerivedEncounterState, ParserStatus, StartTimeOutOfRange};
use gbfr_logs::encounter::{Encounter, PlayerData};
use gbfr_logs::float32::Float32;
use gbfr_logs::parser::attribution::{
    adjust, collect_id_transformation_parents, damage_cap_enabled_for_actor,
    observed_id_transformation_parent,
};
use gbfr_logs::parser::live::EUGEN_GRENADE_ACTOR_TYPE;
use gbfr_logs::parser::replay::can_replay;
use gbfr_logs::parser::save::{LogRow, LOG_VERSION, SIR_BARROLD_ACTOR_TYPE};
use gbfr_logs::parser::Parser;
use gbfr_logs::protocol::{
    ActionType, Actor, AreaEnterEvent, DamageEvent, Message, OnAttemptSBAEvent,
    OnContinueSBAChainEvent, OnDeathEvent, OnPerformSBAEvent, OnUpdateSBAEvent,
    QuestCompleteEvent,
};

const MAGLIELLE: u32 = 0x4C71_4F77;
const ENEMY: u32 = 0x1234_5678;

fn float(value: f32) -> Float32 {
    Float32::from_bits(value.to_bits())
}

fn hit(actor_index: u32, target_index: u32, damage: i32) -> DamageEvent {
    DamageEvent {
        source: Actor {
            index: actor_index,
            actor_type: MAGLIELLE,
            parent_index: actor_index,
            parent_actor_type: MAGLIELLE,
        },
        target: Actor {
            index: target_index,
            actor_type: ENEMY,
            parent_index: target_index,
            parent_actor_type: ENEMY,
        },
        damage,
        flags: 0,
        action_id: ActionType::Normal(1),
        attack_rate: None,
        stun_value: None,
        damage_cap: None,
    }
}

fn transformation_hit(index: u32, owner: Option<u32>, damage: i32) -> DamageEvent {
    let mut event = hit(index, 100, damage);
    event.source.actor_type = ID_TRANSFORMATION_ACTOR_TYPE;
    match owner {
        Some(owner) => {
            event.source.parent_actor_type = ID_ACTOR_TYPE;
            event.source.parent_index = owner;
        }
        None => event.source.parent_actor_type = ID_TRANSFORMATION_ACTOR_TYPE,
    }
    event
}

fn player(actor_index: u32, is_online: bool) -> PlayerData {
    PlayerData {
        actor_index,
        display_name: format!("Player {actor_index}"),
        character_name: "Maglielle".to_string(),
        character_type: CharacterType::Pl2400,
        sigils: Vec::new(),
        is_online,
        weapon_info: None,
        overmastery_info: None,
        player_stats: None,
        master_traits: Vec::new(),
    }
}

fn gauge(actor_index: u32, sba_value: f32) -> Message {
    Message::OnUpdateSBA(OnUpdateSBAEvent {
        actor_index,
        sba_value: float(sba_value),
        sba_added: float(0.0),
    })
}

fn death(actor_index: u32, death_counter: u32, is_delta: bool) -> OnDeathEvent {
    OnDeathEvent {
        actor_index,
        death_counter,
        is_delta,
    }
}

fn parser_of(log: Vec<(i64, Message)>) -> Parser {
    let mut encounter = Encounter::default();
    encounter.raw_event_log = log;
    Parser::from_encounter(encounter)
}

/// What a parser has worked out, as text that can be compared.
fn worked_out(parser: &Parser) -> String {
    let state = &parser.derived_state;
    let mut players: Vec<String> = state
        .party
        .iter()
        .map(|(index, player)| format!("{index}: {player:?}"))
        .collect();
    players.sort();
    let mut enemies: Vec<String> = state
        .targets
        .iter()
        .map(|(index, enemy)| format!("{index}: {enemy:?}"))
        .collect();
    enemies.sort();
    format!(
        "{} {} {} {:?} {players:?} {enemies:?}",
        state.start_time, state.end_time, state.total_damage, state.stun_values
    )
}

fn long_log() -> Vec<(i64, Message)> {
    let mut stunning = hit(1, 100, 250);
    stunning.stun_value = Some(float(2.5));
    let mut other = hit(2, 101, 400);
    other.action_id = ActionType::LinkAttack;
    other.target.parent_actor_type = 0x9999;
    vec![
        (1_000, Message::DamageEvent(hit(1, 100, 100))),
        (1_200, Message::OnDeathEvent(death(1, 1, true))),
        (1_500, Message::DamageEvent(stunning)),
        (1_700, gauge(1, 350.0)),
        (2_000, Message::DamageEvent(other)),
        (2_100, Message::OnDeathEvent(death(2, 3, false))),
        (2_200, Message::OnBattleEnd),
        (3_000, Message::DamageEvent(transformation_hit(4, Some(2), 50))),
    ]
}

#[test]
fn parsing_a_log_adds_up() {
    let parser = parser_of(long_log());
    let state = &parser.derived_state;
    assert_eq!(state.total_damage, 800);
    assert_eq!(
        state.party.values().map(|player| player.total_damage).sum::<u64>(),
        800
    );
    assert_eq!(
        state.targets.values().map(|enemy| enemy.total_damage).sum::<u64>(),
        800
    );
    for player in state.party.values() {
        assert_eq!(
            player
                .skill_breakdown
                .iter()
                .map(|skill| skill.total_damage)
                .sum::<u64>(),
            player.total_damage
        );
    }
    assert_eq!(state.party[&1].total_damage, 350);
    assert_eq!(state.party[&1].skill_breakdown.len(), 1);
    assert_eq!(state.party[&1].skill_breakdown[0].hits, 2);
    assert_eq!(state.party[&1].sba, float(350.0));
    assert_eq!(state.party[&1].deaths, 1);
    assert_eq!(state.party[&2].total_damage, 450);
    assert_eq!(state.party[&2].skill_breakdown.len(), 2);
    assert_eq!(state.party[&2].deaths, 3);
    assert_eq!(state.targets[&101].raw_target_type, 0x9999);
    assert_eq!(
        state.party[&1].stun_values,
        vec![float(0.0), float(2.5)]
    );
    assert_eq!(state.duration(), 2_000);
    assert_eq!(state.rate_millis, 2_000);
}

#[test]
fn parsing_again_changes_nothing() {
    let mut parser = parser_of(long_log());
    let first = worked_out(&parser);
    parser.reparse();
    assert_eq!(worked_out(&parser), first);
    // Whatever was worked out before is forgotten.
    parser.derived_state = DerivedEncounterState::default();
    parser.death_counts.insert(1, 77);
    parser.id_transformation_parents.insert(1, 9);
    parser.reparse();
    assert_eq!(worked_out(&parser), first);
}

#[test]
fn targets_select_the_hits_that_count() {
    let mut parser = parser_of(long_log());
    parser.reparse_with_options(&[]);
    assert_eq!(parser.derived_state.total_damage, 800);
    // Gauges are not followed when targets are selected.
    assert_eq!(parser.derived_state.party[&1].sba, float(0.0));
    parser.reparse_with_options(&[EnemyType::from_hash(0x9999)]);
    assert_eq!(parser.derived_state.total_damage, 400);
    assert_eq!(parser.derived_state.targets.len(), 1);
    assert_eq!(parser.derived_state.targets[&101].raw_target_type, 0x9999);
    assert_eq!(parser.derived_state.party.len(), 1);
    assert_eq!(parser.derived_state.end_time, 3_000);
    parser.reparse_with_options(&[EnemyType::from_hash(0x9999), EnemyType::from_hash(ENEMY)]);
    assert_eq!(parser.derived_state.total_damage, 800);
    parser.reparse_with_options(&[EnemyType::from_hash(1)]);
    assert_eq!(parser.derived_state.total_damage, 0);
    assert!(parser.derived_state.targets.is_empty());
}

#[test]
fn an_encounter_starts_and_ends_with_a_hit() {
    let log = vec![
        (500, Message::OnDeathEvent(death(10, 1, true))),
        (700, gauge(10, 5.0)),
        (1_000, Message::DamageEvent(hit(10, 100, 100))),
        (1_200, gauge(10, 300.0)),
        (3_500, Message::DamageEvent(hit(10, 100, 100))),
        (5_000, Message::OnDeathEvent(death(10, 1, true))),
    ];
    let mut parser = parser_of(log.clone());
    assert_eq!(parser.start_time(), 1_000);
    assert_eq!(parser.derived_state.start_time, 1_000);
    assert_eq!(parser.derived_state.end_time, 3_500);
    assert_eq!(parser.derived_state.duration(), 2_500);
    assert_eq!(parser.derived_state.party[&10].deaths, 2);
    // What was reported before the start is not in the chart.
    assert_eq!(
        parser.generate_sba_chart(1_000)[&10],
        [300.0, 300.0, 300.0].map(float).to_vec()
    );
    // A hit that does not count still belongs to the encounter.
    parser.reparse_with_options(&[EnemyType::from_hash(1)]);
    assert_eq!(parser.derived_state.start_time, 1_000);
    assert_eq!(parser.derived_state.end_time, 3_500);

    // Without a hit, the first report counts.
    assert_eq!(parser_of(log[..2].to_vec()).start_time(), 500);
    assert_eq!(parser_of(log[5..].to_vec()).derived_state.end_time, 5_000);
    assert_eq!(Parser::default().start_time(), 1);
}

#[test]
fn a_death_before_the_first_hit_does_not_start_the_clock() {
    let mut parser = Parser::default();
    parser.on_death_event_at(500, death(10, 1, true));
    assert_eq!(parser.derived_state.start_time, 500);
    parser.on_damage_event_at(1_000, hit(10, 100, 100));
    assert_eq!(parser.derived_state.start_time, 1_000);
    parser.on_damage_event_at(3_500, hit(10, 100, 100));
    parser.on_death_event_at(5_000, death(10, 1, true));
    assert_eq!(parser.derived_state.start_time, 1_000);
    assert_eq!(parser.derived_state.end_time, 3_500);
    assert_eq!(parser.derived_state.party[&10].deaths, 2);
    assert_eq!(parser.start_time(), 1_000);
    let row = row_of(parser.on_battle_end_event());
    assert_eq!((row.time, row.duration), (1_000, 2_500));
    // Parsed again, it lasts as long.
    parser.reparse();
    assert_eq!(parser.derived_state.start_time, 1_000);
    assert_eq!(parser.derived_state.duration(), 2_500);
}

#[test]
fn only_logs_that_add_up_can_be_replayed() {
    assert!(can_replay(&[]));
    assert!(can_replay(&long_log()));
    assert!(!can_replay(&[(1, Message::DamageEvent(hit(1, 100, -1)))]));
    let far_apart = |first, second| {
        can_replay(&[(first, Message::OnBattleEnd), (second, Message::OnBattleEnd)])
    };
    assert!(far_apart(-1, i64::MAX - 1));
    assert!(!far_apart(-1, i64::MAX));
    assert!(far_apart(0, i64::MIN));
    assert!(!far_apart(1, i64::MIN));
}

#[test]
fn an_empty_log_is_parsed() {
    let parser = parser_of(Vec::new());
    assert_eq!(parser.derived_state.start_time, 1);
    assert_eq!(parser.derived_state.duration(), 1);
    assert!(parser.derived_state.get_primary_target().is_none());
    assert!(!parser.has_damage());
    assert!(parser.generate_sba_transition_events().is_empty());
    assert!(parser.generate_sba_chart(1_000).is_empty());
}

#[test]
fn the_first_owner_of_a_transformation_stands() {
    let log = vec![
        (1, Message::DamageEvent(transformation_hit(4, Some(13), 1))),
        (2, Message::DamageEvent(transformation_hit(4, Some(14), 1))),
        (3, Message::DamageEvent(hit(1, 100, 1))),
    ];
    let parents = collect_id_transformation_parents(&log);
    assert_eq!(parents, HashMap::from([(4, 13)]));
    assert_eq!(
        observed_id_transformation_parent(&transformation_hit(4, Some(13), 1)),
        Some((4, 13))
    );
    assert_eq!(
        observed_id_transformation_parent(&transformation_hit(4, None, 1)),
        None
    );
    assert_eq!(observed_id_transformation_parent(&hit(1, 100, 1)), None);
    let parser = parser_of(log);
    assert_eq!(parser.derived_state.party[&13].total_damage, 2);
    assert!(!parser.derived_state.party.contains_key(&14));
    assert_eq!(parser.resolve_actor_parent(4), 13);
    assert_eq!(parser.resolve_actor_parent(5), 5);
}

#[test]
fn adjusting_a_hit_twice_changes_nothing_more() {
    let mut players = [None, None, None, None];
    players[0] = Some(player(1, true));
    players[1] = Some(player(2, true));
    let mut id = player(13, false);
    id.character_type = CharacterType::Pl1900;
    players[2] = Some(id);
    let parents = HashMap::from([(4, 13)]);
    let mut events = vec![
        hit(1, 100, 5),
        hit(2, 100, 5),
        hit(7, 100, 5),
        transformation_hit(4, None, 5),
        transformation_hit(5, None, 5),
        transformation_hit(4, Some(20), 5),
        transformation_hit(6, Some(20), 5),
    ];
    for event in &mut events {
        event.damage_cap = Some(10);
    }
    let expected = [
        (1, Some(10)),
        (2, None),
        (7, None),
        (13, Some(10)),
        (13, Some(10)),
        (13, Some(10)),
        (20, None),
    ];
    for (event, (owner, cap)) in events.iter().zip(expected) {
        let once = adjust(event, &players, &parents);
        assert_eq!((once.source.parent_index, once.damage_cap), (owner, cap));
        assert_eq!(adjust(&once, &players, &parents), once);
    }
    assert!(damage_cap_enabled_for_actor(&players, 1));
    assert!(!damage_cap_enabled_for_actor(&players, 2));
    assert!(damage_cap_enabled_for_actor(&players, 13));
    assert!(!damage_cap_enabled_for_actor(&players, 99));
}

#[test]
fn hits_that_are_no_players_are_ignored() {
    let mut grenade = hit(1, 100, 5);
    grenade.target.actor_type = EUGEN_GRENADE_ACTOR_TYPE;
    let mut enemy = hit(1, 100, 5);
    enemy.source.parent_actor_type = ENEMY;
    for event in [hit(1, 100, 0), hit(1, 100, -3), grenade, enemy] {
        assert!(Parser::should_ignore_damage_event(&event));
        let mut parser = Parser::default();
        assert!(!parser.on_damage_event_at(1_000, event));
        assert_eq!(parser.status, ParserStatus::Waiting);
        assert!(parser.encounter.raw_event_log.is_empty());
    }
    assert!(!Parser::should_ignore_damage_event(&hit(1, 100, 1)));
}

#[test]
fn a_hit_starts_an_encounter_and_forgets_the_last() {
    let mut parser = Parser::default();
    assert!(parser.on_damage_event_at(1_000, hit(1, 100, 70)));
    assert!(!parser.on_damage_event_at(1_040, hit(1, 100, 30)));
    assert_eq!(parser.derived_state.start_time, 1_000);
    assert_eq!(parser.derived_state.end_time, 1_040);
    assert_eq!(parser.derived_state.total_damage, 100);
    assert_eq!(parser.encounter.event_log().len(), 2);
    assert!(matches!(parser.on_battle_end_event(), Some(Ok(_))));

    assert!(parser.on_damage_event_at(9_000, hit(1, 100, 7)));
    assert_eq!(parser.status, ParserStatus::InProgress);
    assert_eq!(parser.derived_state.status, ParserStatus::InProgress);
    assert_eq!(parser.derived_state.start_time, 9_000);
    assert_eq!(parser.derived_state.total_damage, 7);
    assert_eq!(parser.encounter.event_log().len(), 1);
}

#[test]
fn the_clock_of_the_machine_times_the_reports() {
    let before = chrono::Utc::now().timestamp_millis();
    let mut parser = Parser::default();
    parser.on_damage_event(hit(1, 100, 70));
    parser.on_sba_update(OnUpdateSBAEvent {
        actor_index: 1,
        sba_value: float(12.0),
        sba_added: float(12.0),
    });
    parser.on_sba_attempt(OnAttemptSBAEvent { actor_index: 1 });
    parser.on_sba_perform(OnPerformSBAEvent { actor_index: 1 });
    parser.on_continue_sba_chain(OnContinueSBAChainEvent { actor_index: 1 });
    parser.on_death_event(death(1, 1, true));
    let after = chrono::Utc::now().timestamp_millis();
    assert_eq!(parser.encounter.event_log().len(), 6);
    for (time, _) in parser.encounter.event_log() {
        assert!((before..=after).contains(time));
    }
    assert!(before > 1_600_000_000_000);
}

#[test]
fn gauges_follow_what_is_reported_of_them() {
    let mut parser = Parser::default();
    parser.on_damage_event_at(1_000, hit(1, 100, 70));
    parser.on_sba_update_at(
        1_200,
        OnUpdateSBAEvent {
            actor_index: 1,
            sba_value: float(427.5),
            sba_added: float(1.0),
        },
    );
    assert_eq!(parser.derived_state.party[&1].sba, float(427.5));
    parser.on_sba_attempt_at(1_300, OnAttemptSBAEvent { actor_index: 1 });
    assert_eq!(parser.derived_state.party[&1].sba, float(1_000.0));
    parser.on_sba_perform_at(1_400, OnPerformSBAEvent { actor_index: 1 });
    assert_eq!(parser.derived_state.party[&1].sba, float(0.0));
    parser.on_sba_attempt_at(1_500, OnAttemptSBAEvent { actor_index: 1 });
    parser.on_continue_sba_chain_at(1_600, OnContinueSBAChainEvent { actor_index: 1 });
    assert_eq!(parser.derived_state.party[&1].sba, float(0.0));
    // Someone who is not in the party is only logged.
    parser.on_sba_attempt_at(1_700, OnAttemptSBAEvent { actor_index: 8 });
    assert!(!parser.derived_state.party.contains_key(&8));
    assert_eq!(parser.encounter.event_log().len(), 7);
    assert_eq!(parser.derived_state.total_damage, 70);
}

#[test]
fn deaths_add_up_or_rise_to_a_total() {
    let mut parser = Parser::default();
    parser.on_death_event_at(1_000, death(1, 2, true));
    assert_eq!(parser.status, ParserStatus::InProgress);
    assert_eq!(parser.death_counts[&1], 2);
    parser.on_damage_event_at(1_100, hit(1, 100, 5));
    assert_eq!(parser.derived_state.party[&1].deaths, 2);
    parser.on_death_event_at(1_200, death(1, 1, false));
    assert_eq!(parser.derived_state.party[&1].deaths, 2);
    parser.on_death_event_at(1_300, death(1, 5, false));
    assert_eq!(parser.derived_state.party[&1].deaths, 5);
    parser.on_death_event_at(1_400, death(1, u32::MAX, true));
    assert_eq!(parser.derived_state.party[&1].deaths, u32::MAX);
    parser.reparse();
    assert_eq!(parser.derived_state.party[&1].deaths, u32::MAX);
    assert_eq!(parser.derived_state.total_damage, 5);
}

#[test]
fn updates_of_the_window_are_spaced_and_none_is_lost() {
    let mut parser = Parser::default();
    assert!(!parser.flush_pending_encounter_update(5_000));
    assert!(parser.queue_encounter_update(5_000));
    assert!(!parser.queue_encounter_update(5_001));
    assert!(!parser.queue_encounter_update(5_099));
    assert!(parser.encounter_update_pending);
    assert!(parser.flush_pending_encounter_update(5_100));
    assert!(!parser.flush_pending_encounter_update(9_000));
    assert!(parser.queue_encounter_update(5_200));
    // Zero stands for never.
    let mut at_zero = Parser::default();
    assert!(at_zero.queue_encounter_update(0));
    assert!(at_zero.queue_encounter_update(1));
}

fn row_of(result: Option<Result<LogRow, StartTimeOutOfRange>>) -> LogRow {
    result.expect("an encounter to save").expect("a start time")
}

#[test]
fn a_saved_row_tells_the_encounter() {
    let mut parser = Parser::default();
    parser.encounter.player_data[0] = Some(player(1, true));
    parser.encounter.player_data[2] = Some(player(3, false));
    parser.encounter.quest_id = Some(0x40_6324);
    parser.on_damage_event_at(1_000, hit(1, 100, 70));
    parser.on_damage_event_at(4_500, hit(1, 101, 71));
    let row = row_of(parser.on_battle_end_event());
    assert_eq!(row.time, 1_000);
    assert_eq!(row.duration, 3_500);
    assert_eq!(row.version, LOG_VERSION);
    assert_eq!(row.primary_target, Some(ENEMY));
    assert_eq!(row.quest_id, Some(0x40_6324));
    assert_eq!(row.quest_elapsed_time, None);
    assert!(!row.quest_completed);
    assert_eq!(row.players.len(), 4);
    let first = row.players[0].as_ref().expect("a player");
    assert_eq!(first.name, "Player 1");
    assert_eq!(first.character_type, CharacterType::Pl2400);
    assert!(row.players[1].is_none());
    assert_eq!(row.players[2].as_ref().expect("a player").name, "Player 3");
    assert!(row.players[3].is_none());
    assert_eq!(
        parser.derived_state.get_primary_target().expect("a target").index,
        101
    );
}

#[test]
fn the_quest_of_a_fight_with_sir_barrold_is_left_out() {
    let mut parser = Parser::default();
    let mut training = hit(1, 100, 70);
    training.target.parent_actor_type = SIR_BARROLD_ACTOR_TYPE;
    parser.on_damage_event_at(1_000, training);
    parser.encounter.quest_id = Some(3);
    parser.encounter.quest_timer = Some(4);
    let row = parser.save_encounter_to_db().expect("a row");
    assert_eq!(row.primary_target, Some(SIR_BARROLD_ACTOR_TYPE));
    assert_eq!((row.quest_id, row.quest_elapsed_time), (None, None));
    assert_eq!(parser.encounter.quest_id, None);
    assert_eq!(parser.encounter.quest_timer, None);
}

#[test]
fn a_start_outside_the_calendar_cannot_be_saved() {
    let mut state = DerivedEncounterState::default();
    for (start, expected) in [
        (0, Ok(0)),
        (1_700_000_000_123, Ok(1_700_000_000_123)),
        (MAX_UTC_MILLIS, Ok(MAX_UTC_MILLIS)),
        (MAX_UTC_MILLIS + 1, Err(StartTimeOutOfRange)),
        (i64::MAX, Err(StartTimeOutOfRange)),
        (MIN_UTC_MILLIS, Ok(MIN_UTC_MILLIS)),
        (MIN_UTC_MILLIS - 1, Err(StartTimeOutOfRange)),
        (i64::MIN, Err(StartTimeOutOfRange)),
    ] {
        state.start_time = start;
        assert_eq!(state.utc_start_time(), expected);
    }

    let mut parser = Parser::default();
    parser.encounter.quest_id = Some(3);
    parser.on_damage_event_at(MAX_UTC_MILLIS + 1, hit(1, 100, 70));
    assert!(matches!(
        parser.finish_and_save_encounter(),
        Err(StartTimeOutOfRange)
    ));
    assert_eq!(parser.status, ParserStatus::Stopped);
    assert_eq!(parser.encounter.quest_id, Some(3));
}

#[test]
fn an_update_that_waits_is_sent_before_the_encounter_is_saved() {
    let mut parser = Parser::default();
    assert!(parser.on_damage_event_at(1_000, hit(1, 100, 70)));
    assert!(!parser.on_damage_event_at(1_050, hit(1, 100, 70)));
    let (send, row) = parser.auto_save_if_inactive(1_099);
    assert!(!send && row.is_none());
    let (send, row) = parser.auto_save_if_inactive(1_100);
    assert!(send && row.is_none());
    let (send, row) = parser.auto_save_if_inactive(1_300);
    assert!(!send && row.is_none());

    // Both at once.
    assert!(!parser.on_damage_event_at(1_150, hit(1, 100, 70)));
    let (send, row) = parser.auto_save_if_inactive(61_150);
    assert!(send);
    assert_eq!(row_of(row).duration, 150);
    assert!(!parser.encounter_update_pending);
}

#[test]
fn a_run_of_reports_stays_in_order() {
    let mut parser = Parser::default();
    for step in 0..50u32 {
        parser.on_damage_event(hit(step % 4, 100 + step % 3, 70));
        parser.on_death_event(death(step % 4, 1, true));
        parser.on_sba_perform(OnPerformSBAEvent {
            actor_index: step % 4,
        });
        assert!(can_replay(&parser.encounter.raw_event_log));
    }
    assert_eq!(parser.encounter.raw_event_log.len(), 150);
    assert_eq!(parser.derived_state.total_damage, 50 * 70);
    for (time, _) in &parser.encounter.raw_event_log {
        assert!((0..=MAX_UTC_MILLIS).contains(time));
    }
    assert!((0..=MAX_UTC_MILLIS).contains(&parser.derived_state.start_time));
    assert!((0..=MAX_UTC_MILLIS).contains(&parser.derived_state.end_time));
    assert!((0..=MAX_UTC_MILLIS).contains(&parser.last_encounter_emit_at));
    parser.reparse();
    assert_eq!(parser.derived_state.total_damage, 50 * 70);
    assert!(parser.on_battle_end_event().is_some());
}

#[test]
fn an_encounter_is_saved_after_a_minute_without_hits() {
    let mut parser = Parser::default();
    assert!(parser.auto_save_if_inactive(1_000_000).1.is_none());
    parser.on_damage_event_at(1_000, hit(1, 100, 70));
    assert!(parser.auto_save_if_inactive(60_999).1.is_none());
    assert_eq!(row_of(parser.auto_save_if_inactive(61_000).1).time, 1_000);
    assert!(parser.auto_save_if_inactive(200_000).1.is_none());

    // Without damage there is nothing to save.
    let mut idle = Parser::default();
    idle.on_death_event_at(1_000, death(1, 1, true));
    assert!(idle.auto_save_if_inactive(900_000).1.is_none());
    assert!(idle.on_battle_end_event().is_none());
    assert_eq!(idle.status, ParserStatus::InProgress);
}

#[test]
fn entering_an_area_ends_an_encounter_and_empties_the_party() {
    let mut parser = Parser::default();
    parser.encounter.player_data[0] = Some(player(1, true));
    parser.on_damage_event_at(1_000, hit(1, 100, 70));
    parser.encounter.quest_completed = true;
    let row = row_of(parser.on_area_enter_event(AreaEnterEvent {
        last_known_quest_id: 9,
    }));
    assert_eq!(row.quest_id, Some(9));
    assert!(row.quest_completed);
    assert!(row.players[0].is_some());
    parser.prepare_area();
    assert_eq!(parser.status, ParserStatus::Stopped);
    assert!(!parser.encounter.quest_completed);
    assert!(parser.encounter.player_data.iter().all(Option::is_none));

    assert!(parser
        .on_area_enter_event(AreaEnterEvent {
            last_known_quest_id: 10
        })
        .is_none());
    assert_eq!(parser.status, ParserStatus::Waiting);
    assert_eq!(parser.encounter.quest_id, Some(10));

    let mut idle = Parser::default();
    idle.on_death_event_at(1_000, death(1, 1, true));
    assert!(idle
        .on_area_enter_event(AreaEnterEvent {
            last_known_quest_id: 11
        })
        .is_none());
    assert_eq!(idle.status, ParserStatus::Stopped);
}

#[test]
fn completing_a_quest_ends_an_encounter() {
    let done = QuestCompleteEvent {
        quest_id: 0x40_6324,
        elapsed_time_in_secs: 67,
    };
    let mut parser = Parser::default();
    parser.on_damage_event_at(1_000, hit(1, 100, 70));
    let row = row_of(parser.on_quest_complete_event(done));
    assert_eq!(row.quest_id, Some(0x40_6324));
    assert_eq!(row.quest_elapsed_time, Some(67));
    assert!(row.quest_completed);
    assert_eq!(parser.status, ParserStatus::Stopped);
    assert!(parser.on_quest_complete_event(done).is_none());

    let mut waiting = Parser::default();
    assert!(waiting.on_quest_complete_event(done).is_none());
    assert_eq!(waiting.status, ParserStatus::Waiting);
    assert!(waiting.encounter.quest_completed);
}

#[test]
fn charts_carry_levels_and_drop_what_lies_outside() {
    let mut log = vec![
        (10_000, Message::DamageEvent(hit(1, 100, 1))),
        (10_100, gauge(1, 100.0)),
        (10_900, gauge(1, 150.0)),
        (12_000, Message::OnAttemptSBA(OnAttemptSBAEvent { actor_index: 1 })),
        (13_999, Message::OnPerformSBA(OnPerformSBAEvent { actor_index: 1 })),
        (9_000, gauge(1, 777.0)),
        (99_000, gauge(1, 888.0)),
        (14_500, Message::DamageEvent(hit(1, 100, 1))),
    ];
    let chart = &parser_of(log.clone()).generate_sba_chart(1_000)[&1];
    assert_eq!(
        *chart,
        [150.0, 150.0, 1_000.0, 0.0, 0.0].map(float).to_vec()
    );
    log.push((
        14_600,
        Message::OnContinueSBAChain(OnContinueSBAChainEvent { actor_index: 1 }),
    ));
    let events = parser_of(log).generate_sba_transition_events();
    assert_eq!(
        events,
        vec![
            (12_000, Message::OnAttemptSBA(OnAttemptSBAEvent { actor_index: 1 })),
            (13_999, Message::OnPerformSBA(OnPerformSBAEvent { actor_index: 1 })),
            (
                14_600,
                Message::OnContinueSBAChain(OnContinueSBAChainEvent { actor_index: 1 })
            ),
        ]
    );
}

#[test]
fn a_use_is_inferred_only_from_a_full_gauge_that_empties() {
    let infer = |levels: &[f32]| {
        let log = levels
            .iter()
            .enumerate()
            .map(|(index, level)| (index as i64, gauge(3, *level)))
            .collect();
        parser_of(log).generate_sba_transition_events()
    };
    let used = |time| {
        vec![(
            time,
            Message::OnPerformSBA(OnPerformSBAEvent { actor_index: 3 }),
        )]
    };
    assert_eq!(infer(&[900.0, 100.0]), used(1));
    assert_eq!(infer(&[500.0, 1_000.0, 0.0, 5.0]), used(2));
    assert!(infer(&[899.9, 0.0]).is_empty());
    assert!(infer(&[1_000.0, 100.1]).is_empty());
    assert!(infer(&[0.0]).is_empty());
    assert!(infer(&[1_000.0, f32::NAN, 0.0]).is_empty());
}

#[test]
fn what_was_stored_is_given_back() {
    let mut encoded: Vec<u8> = (0..100_000u32).map(|index| (index % 7) as u8).collect();
    let blob = Encounter::to_blob(&encoded).expect("a blob");
    assert_ne!(blob, encoded);
    assert!(blob.len() < 1_000);
    assert_eq!(Encounter::from_blob(&blob), Ok(encoded.clone()));
    encoded.clear();
    let blob = Encounter::to_blob(&encoded).expect("a blob");
    assert_eq!(Encounter::from_blob(&blob), Ok(encoded));
}

#[test]
fn stored_encounters_are_frames_of_the_third_level() {
    let encoded = b"an encounter, an encounter, an encounter".to_vec();
    let blob = Encounter::to_blob(&encoded).expect("a blob");
    assert_eq!(blob, zstd::encode_all(&encoded[..], 3).expect("a frame"));
    assert_eq!(blob[..4], [0x28, 0xB5, 0x2F, 0xFD]);
}

#[test]
fn what_is_no_blob_cannot_be_unpacked() {
    assert_eq!(
        Encounter::from_blob(b"not a blob"),
        Err(BlobError::Decompress)
    );
    let blob = Encounter::to_blob(&[7; 500]).expect("a blob");
    assert_eq!(
        Encounter::from_blob(&blob[..blob.len() - 1]),
        Err(BlobError::Decompress)
    );
}

#[test]
fn older_logs_are_taken_from_their_hits() {
    let hits = vec![(5_000, hit(1, 100, 10)), (6_000, hit(1, 100, 20))];
    let mut encounter = Encounter::default();
    encounter.event_log = hits.clone();
    let parser = Parser::from_decoded_encounter(encounter);
    assert_eq!(parser.derived_state.total_damage, 30);
    assert_eq!(parser.derived_state.start_time, 5_000);

    // A newer log is taken as it is.
    let mut newer = Encounter::default();
    newer.event_log = hits.clone();
    newer.push_event(7_000, Message::DamageEvent(hit(2, 100, 7)));
    newer.repopulate_event_log();
    assert_eq!(newer.event_log().len(), 1);
    assert_eq!(
        Parser::from_decoded_encounter(newer).derived_state.total_damage,
        7
    );

    let bare = Parser::from_damage_event_log(hits);
    assert_eq!(bare.status, ParserStatus::Stopped);
    assert_eq!(bare.derived_state.total_damage, 0);
    assert_eq!(bare.encounter.event_log.len(), 2);
    assert!(bare.encounter.raw_event_log.is_empty());
}
