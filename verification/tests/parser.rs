use gbfr_logs::cap_detection::UNAVAILABLE_DAMAGE_CAP;
use gbfr_logs::constants::{CharacterType, ID_ACTOR_TYPE, ID_TRANSFORMATION_ACTOR_TYPE};
use gbfr_logs::derived::ParserStatus;
use gbfr_logs::encounter::PlayerData;
use gbfr_logs::float32::Float32;
use gbfr_logs::master_traits::{SigilTraitRow, SigilTraits};
use gbfr_logs::parser::party::sigil_from_protocol;
use gbfr_logs::parser::save::AUTO_SAVE_INACTIVITY_MS;
use gbfr_logs::parser::Parser;
use gbfr_logs::protocol::{
    ActionType, Actor, DamageEvent, Message, OnDeathEvent, OnPerformSBAEvent, OnUpdateSBAEvent,
    PlayerEquipmentEvent, PlayerIdentityEvent, Sigil,
};

fn float(value: f32) -> Float32 {
    Float32::from_bits(value.to_bits())
}

fn no_traits() -> SigilTraits {
    SigilTraits::from_rows(&[])
}

fn game_2_damage_event(actor_index: u32, damage: i32, damage_cap: Option<i32>) -> DamageEvent {
    DamageEvent {
        source: Actor {
            index: actor_index,
            actor_type: 0x4C714F77,
            parent_actor_type: 0x4C714F77,
            parent_index: actor_index,
        },
        target: Actor {
            index: 100,
            actor_type: 0x12345678,
            parent_actor_type: 0x12345678,
            parent_index: 100,
        },
        damage,
        flags: 0,
        action_id: ActionType::Normal(1),
        attack_rate: None,
        stun_value: None,
        damage_cap,
    }
}

fn id_player(actor_index: u32) -> PlayerData {
    PlayerData {
        actor_index,
        display_name: "Lynd".to_string(),
        character_name: "Id".to_string(),
        character_type: CharacterType::Pl1900,
        sigils: Vec::new(),
        is_online: false,
        weapon_info: None,
        overmastery_info: None,
        player_stats: None,
        master_traits: Vec::new(),
    }
}

fn party_player(actor_index: u32, is_online: bool) -> PlayerData {
    PlayerData {
        actor_index,
        display_name: format!("Player {actor_index}"),
        character_name: "Maglielle".to_string(),
        character_type: CharacterType::Pl2400,
        sigils: Vec::new(),
        is_online,
        weapon_info: None,
        overmastery_info: None,
        player_stats: None,
        master_traits: Vec::new(),
    }
}

fn id_transformation_damage(actor_index: u32, damage: i32) -> DamageEvent {
    let mut event = game_2_damage_event(actor_index, damage, None);
    event.source.actor_type = ID_TRANSFORMATION_ACTOR_TYPE;
    event.source.parent_actor_type = ID_TRANSFORMATION_ACTOR_TYPE;
    event
}

fn parented_id_transformation_damage(
    transformation_index: u32,
    id_index: u32,
    damage: i32,
) -> DamageEvent {
    let mut event = id_transformation_damage(transformation_index, damage);
    event.source.parent_actor_type = ID_ACTOR_TYPE;
    event.source.parent_index = id_index;
    event
}

fn id_damage(actor_index: u32, damage: i32) -> DamageEvent {
    let mut event = game_2_damage_event(actor_index, damage, None);
    event.source.actor_type = ID_ACTOR_TYPE;
    event.source.parent_actor_type = ID_ACTOR_TYPE;
    event
}

fn sba_update(actor_index: u32, sba_value: f32, sba_added: f32) -> OnUpdateSBAEvent {
    OnUpdateSBAEvent {
        actor_index,
        sba_value: float(sba_value),
        sba_added: float(sba_added),
    }
}

#[test]
fn can_create_parser() {
    let parser = Parser::default();

    assert_eq!(parser.status, ParserStatus::Waiting);
    assert_eq!(parser.start_time(), 1);
}

#[test]
fn sba_chart_carries_sparse_samples_forward() {
    let mut parser = Parser::default();
    parser.encounter.raw_event_log.extend([
        (
            1_000,
            Message::DamageEvent(game_2_damage_event(7, 100, None)),
        ),
        (1_500, Message::OnUpdateSBA(sba_update(7, 200.0, 200.0))),
        (3_500, Message::OnUpdateSBA(sba_update(7, 700.0, 500.0))),
        (
            4_000,
            Message::DamageEvent(game_2_damage_event(7, 100, None)),
        ),
    ]);
    parser.reparse();

    assert_eq!(
        parser.generate_sba_chart(1_000)[&7],
        vec![float(200.0), float(200.0), float(700.0), float(700.0)]
    );
}

#[test]
fn gauge_reset_infers_sba_execution_and_maps_id_transformation_to_owner() {
    let mut parser = Parser::default();
    parser.encounter.raw_event_log.extend([
        (1_000, Message::DamageEvent(id_damage(13, 100))),
        (1_100, Message::OnUpdateSBA(sba_update(4, 965.0, 965.0))),
        (
            1_200,
            Message::DamageEvent(parented_id_transformation_damage(4, 13, 100)),
        ),
        (1_300, Message::OnUpdateSBA(sba_update(4, 0.0, -965.0))),
    ]);
    parser.reparse();

    let events = parser.generate_sba_transition_events();
    assert_eq!(events.len(), 1);
    assert_eq!(events[0].0, 1_300);
    assert!(matches!(
        &events[0].1,
        Message::OnPerformSBA(OnPerformSBAEvent { actor_index: 13 })
    ));
    assert!(parser.generate_sba_chart(1_000).contains_key(&13));
    assert!(!parser.generate_sba_chart(1_000).contains_key(&4));
}

#[test]
fn inactive_encounter_is_saved_once() {
    let mut parser = Parser::default();
    parser.on_damage_event(game_2_damage_event(1, 100, None));
    let last_damage_at = parser.derived_state.end_time;

    assert!(matches!(
        parser.auto_save_if_inactive(last_damage_at + AUTO_SAVE_INACTIVITY_MS),
        (_, Some(Ok(_)))
    ));
    assert_eq!(parser.status, ParserStatus::Stopped);
    assert!(parser
        .auto_save_if_inactive(last_damage_at + AUTO_SAVE_INACTIVITY_MS * 2)
        .1
        .is_none());
}

#[test]
fn battle_end_event_stops_and_saves_once() {
    let mut parser = Parser::default();
    parser.on_damage_event(game_2_damage_event(1, 100, None));

    assert!(matches!(parser.on_battle_end_event(), Some(Ok(_))));
    assert_eq!(parser.status, ParserStatus::Stopped);
    assert!(parser.on_battle_end_event().is_none());
}

#[test]
fn game_2_actor_ids_keep_same_character_players_separate() {
    let mut parser = Parser::default();
    parser.on_damage_event(game_2_damage_event(10, 100, None));
    parser.on_damage_event(game_2_damage_event(11, 100, None));

    assert_eq!(parser.derived_state.party.len(), 2);
}

#[test]
fn reparsing_merges_id_transformation_into_the_only_id() {
    let mut parser = Parser::default();
    parser.encounter.player_data[0] = Some(id_player(5));
    parser
        .encounter
        .raw_event_log
        .push((1_000, Message::DamageEvent(id_damage(5, 100))));
    parser.encounter.raw_event_log.push((
        2_000,
        Message::DamageEvent(id_transformation_damage(4, 200)),
    ));

    parser.reparse();

    assert_eq!(parser.derived_state.party.len(), 1);
    let id = &parser.derived_state.party[&5];
    assert_eq!(id.character_type, CharacterType::Pl1900);
    assert_eq!(id.total_damage, 300);
    assert!(id
        .skill_breakdown
        .iter()
        .any(|skill| skill.child_character_type == CharacterType::Pl2000));
}

#[test]
fn late_id_owner_discovery_merges_earlier_transformation_hits_live() {
    let mut parser = Parser::default();

    parser.on_damage_event(id_transformation_damage(4, 100));
    assert_eq!(parser.derived_state.party[&4].total_damage, 100);

    parser.on_sba_update(sba_update(4, 427.5, 427.5));
    parser.on_damage_event(parented_id_transformation_damage(4, 13, 200));

    assert_eq!(parser.derived_state.party.len(), 1);
    assert!(!parser.derived_state.party.contains_key(&4));
    let id = &parser.derived_state.party[&13];
    assert_eq!(id.character_type, CharacterType::Pl1900);
    assert_eq!(id.total_damage, 300);
    assert_eq!(id.sba, float(427.5));
    assert!(id
        .skill_breakdown
        .iter()
        .all(|skill| skill.child_character_type == CharacterType::Pl2000));
}

#[test]
fn late_owner_discovery_keeps_multiple_id_transformations_distinct() {
    let mut parser = Parser::default();

    parser.on_damage_event(id_transformation_damage(4, 100));
    parser.on_damage_event(id_transformation_damage(5, 200));
    parser.on_damage_event(parented_id_transformation_damage(4, 13, 300));
    parser.on_damage_event(parented_id_transformation_damage(5, 14, 400));

    assert_eq!(parser.derived_state.party.len(), 2);
    assert_eq!(parser.derived_state.party[&13].total_damage, 400);
    assert_eq!(parser.derived_state.party[&14].total_damage, 600);
    assert_eq!(
        parser.derived_state.party[&13].character_type,
        CharacterType::Pl1900
    );
    assert_eq!(
        parser.derived_state.party[&14].character_type,
        CharacterType::Pl1900
    );
}

#[test]
fn ambiguous_multiple_id_party_does_not_guess_transformation_owner() {
    let mut parser = Parser::default();
    parser.encounter.player_data[0] = Some(id_player(5));
    parser.encounter.player_data[1] = Some(id_player(6));
    parser.encounter.raw_event_log.push((
        1_000,
        Message::DamageEvent(id_transformation_damage(4, 200)),
    ));

    parser.reparse();

    assert!(parser.derived_state.party.contains_key(&4));
    assert_eq!(
        parser.derived_state.party[&4].character_type,
        CharacterType::Pl2000
    );
}

#[test]
fn live_damage_cap_is_limited_to_local_and_ai_actors() {
    let mut parser = Parser::default();
    parser.encounter.player_data[0] = Some(party_player(10, true));
    parser.encounter.player_data[1] = Some(party_player(11, true));
    parser.encounter.player_data[2] = Some(party_player(12, false));
    parser.on_damage_event(game_2_damage_event(10, 99_999, Some(99_999)));
    parser.on_damage_event(game_2_damage_event(11, 99_999, Some(99_999)));
    parser.on_damage_event(game_2_damage_event(12, 99_999, Some(99_999)));
    parser.on_damage_event(game_2_damage_event(13, 99_999, Some(99_999)));

    assert_eq!(parser.derived_state.party[&10].capped_hits, 1);
    assert_eq!(parser.derived_state.party[&11].capped_hits, 0);
    assert_eq!(parser.derived_state.party[&11].cap_known_hits, 0);
    assert_eq!(parser.derived_state.party[&12].capped_hits, 1);
    assert_eq!(parser.derived_state.party[&13].cap_known_hits, 0);
    let remote_event = parser
        .encounter
        .event_log()
        .iter()
        .find_map(|(_, message)| match message {
            Message::DamageEvent(event) if event.source.parent_index == 11 => Some(event),
            _ => None,
        })
        .unwrap();
    assert_eq!(remote_event.damage_cap, None);
}

#[test]
fn same_character_players_keep_distinct_online_names() {
    let mut parser = Parser::default();

    for (actor_index, party_index, display_name) in [(10, 1, "Player A"), (11, 2, "Player B")] {
        parser.on_player_identity_event(
            PlayerIdentityEvent {
                character_name: display_name.to_string(),
                display_name: display_name.to_string(),
                character_type: 0x48ADDA36,
                party_index,
                actor_index,
                is_online: true,
            },
            None,
        );
    }

    let players = parser
        .encounter
        .player_data
        .iter()
        .flatten()
        .collect::<Vec<_>>();

    assert_eq!(players.len(), 2);
    assert_eq!(players[0].display_name, "Player A");
    assert_eq!(players[1].display_name, "Player B");
    assert_ne!(players[0].actor_index, players[1].actor_index);
    assert_eq!(players[0].character_type, CharacterType::Pl2800);
    assert_eq!(players[1].character_type, CharacterType::Pl2800);
}

#[test]
fn ai_equipment_event_clears_a_reused_online_player_name() {
    let mut parser = Parser::default();
    parser.encounter.player_data[1] = Some(PlayerData {
        actor_index: 10,
        display_name: "Previous Player".to_string(),
        character_name: "Ferry".to_string(),
        character_type: CharacterType::Pl0700,
        sigils: Vec::new(),
        is_online: true,
        weapon_info: None,
        overmastery_info: None,
        player_stats: None,
        master_traits: Vec::new(),
    });

    parser.on_player_equipment_event(
        PlayerEquipmentEvent {
            sigils: Vec::new(),
            weapon_info: None,
            overmastery_info: None,
            player_stats: None,
            master_traits: None,
            character_type: 0x48ADDA36,
            party_index: 2,
            actor_index: 10,
            is_online: false,
        },
        &no_traits(),
        None,
    );

    assert!(parser.encounter.player_data[1].is_none());
    let ai = parser.encounter.player_data[2].as_ref().unwrap();
    assert!(!ai.is_online);
    assert!(ai.display_name.is_empty());
    assert!(ai.character_name.is_empty());
    assert_eq!(ai.character_type, CharacterType::Pl2800);
}

#[test]
fn live_master_traits_preserve_authoritative_empty_and_selected_builds() {
    let mut parser = Parser::default();
    parser.encounter.player_data[1] = Some(PlayerData {
        actor_index: 10,
        display_name: "Star".to_string(),
        character_name: "Ferry".to_string(),
        character_type: CharacterType::Pl0700,
        sigils: Vec::new(),
        is_online: true,
        weapon_info: None,
        overmastery_info: None,
        player_stats: None,
        master_traits: vec![0xDEADBEEF],
    });

    parser.on_player_equipment_event(
        PlayerEquipmentEvent {
            sigils: Vec::new(),
            weapon_info: None,
            overmastery_info: None,
            player_stats: None,
            master_traits: Some(Vec::new()),
            character_type: 0xFBA6615D,
            party_index: 1,
            actor_index: 10,
            is_online: true,
        },
        &no_traits(),
        None,
    );
    assert!(parser.encounter.player_data[1]
        .as_ref()
        .unwrap()
        .master_traits
        .is_empty());

    parser.on_player_equipment_event(
        PlayerEquipmentEvent {
            sigils: Vec::new(),
            weapon_info: None,
            overmastery_info: None,
            player_stats: None,
            master_traits: Some(vec![0x11111111, 0x22222222]),
            character_type: 0xFBA6615D,
            party_index: 1,
            actor_index: 10,
            is_online: true,
        },
        &no_traits(),
        None,
    );
    assert_eq!(
        parser.encounter.player_data[1]
            .as_ref()
            .unwrap()
            .master_traits,
        vec![0x11111111, 0x22222222]
    );
}

#[test]
fn recovers_expansion_unique_sigil_traits_from_sigil_ids() {
    let rows = [
        (1_325_520_586, 1_858_052_470, 4_057_324_496),
        (596_983_764, 2_104_875_268, 3_191_080_121),
        (1_513_492_136, 1_194_869_320, 813_117_847),
        (2_395_713_699, 3_898_603_744, 2_238_888_111),
        (3_457_603_211, 1_415_783_215, 1_159_561_548),
        (3_634_652_401, 2_069_563_421, 2_597_196_811),
    ];
    let table: Vec<SigilTraitRow> = rows
        .iter()
        .map(|&(sigil_id, first_trait_id, second_trait_id)| SigilTraitRow {
            sigil_id,
            first_trait_id,
            second_trait_id,
        })
        .collect();
    let traits = SigilTraits::from_rows(&table);

    for (sigil_id, first_trait_id, second_trait_id) in rows {
        let recovered = sigil_from_protocol(
            Sigil {
                first_trait_id: 0,
                first_trait_level: 0,
                second_trait_id: 0,
                second_trait_level: 0,
                sigil_id,
                equipped_character: 0,
                sigil_level: 15,
                acquisition_count: 1,
                notification_enum: 1,
            },
            &traits,
        );
        assert_eq!(recovered.first_trait_id, first_trait_id);
        assert_eq!(recovered.first_trait_level, 15);
        assert_eq!(recovered.second_trait_id, second_trait_id);
        assert_eq!(recovered.second_trait_level, 15);
    }
}

#[test]
fn capped_hits_are_aggregated_on_reparse() {
    let mut parser = Parser::default();
    parser.encounter.player_data[0] = Some(party_player(1, true));
    parser.encounter.raw_event_log.push((
        1_000,
        Message::DamageEvent(game_2_damage_event(1, 99_999, Some(99_999))),
    ));
    parser.encounter.raw_event_log.push((
        2_000,
        Message::DamageEvent(game_2_damage_event(1, 100, Some(99_999))),
    ));

    parser.reparse();

    let player = parser.derived_state.party.get(&1).expect("player present");
    assert_eq!(player.capped_hits, 1);
    assert_eq!(player.cap_known_hits, 2);
    assert_eq!(player.skill_breakdown[0].capped_hits, 1);
    assert_eq!(player.skill_breakdown[0].cap_known_hits, 2);
    assert_eq!(player.skill_breakdown[0].hits, 2);
}

#[test]
fn saved_remote_caps_are_ignored_during_reparse() {
    let mut parser = Parser::default();
    parser.encounter.player_data[0] = Some(party_player(1, true));
    parser.encounter.player_data[1] = Some(party_player(2, true));
    parser.encounter.player_data[2] = Some(party_player(3, false));
    for actor_index in 1..=3 {
        parser.encounter.raw_event_log.push((
            actor_index as i64 * 1_000,
            Message::DamageEvent(game_2_damage_event(actor_index, 99_999, Some(99_999))),
        ));
    }

    parser.reparse();

    assert_eq!(parser.derived_state.party[&1].cap_known_hits, 1);
    assert_eq!(parser.derived_state.party[&2].cap_known_hits, 0);
    assert_eq!(parser.derived_state.party[&3].cap_known_hits, 1);
}

#[test]
fn unavailable_remote_cap_is_not_reported_as_zero_percent() {
    let mut parser = Parser::default();
    parser.encounter.player_data[1] = Some(party_player(12, true));
    parser.on_damage_event(game_2_damage_event(
        12,
        UNAVAILABLE_DAMAGE_CAP - 1,
        Some(UNAVAILABLE_DAMAGE_CAP),
    ));

    let player = &parser.derived_state.party[&12];
    assert_eq!(player.capped_hits, 0);
    assert_eq!(player.cap_known_hits, 0);
    assert_eq!(player.skill_breakdown[0].cap_known_hits, 0);
}

fn blank_hit() -> DamageEvent {
    DamageEvent {
        source: Actor {
            index: 0,
            actor_type: 0,
            parent_actor_type: 0,
            parent_index: 0,
        },
        target: Actor {
            index: 0,
            actor_type: 0,
            parent_actor_type: 0,
            parent_index: 0,
        },
        damage: 0,
        flags: 0,
        action_id: ActionType::Normal(0),
        attack_rate: None,
        stun_value: None,
        damage_cap: None,
    }
}

#[test]
fn start_time_depends_on_first_event() {
    let mut parser = Parser::default();

    parser
        .encounter
        .raw_event_log
        .push((1_000, Message::DamageEvent(blank_hit())));

    assert_eq!(parser.start_time(), 1_000);
}

#[test]
fn duration_calculated_from_start_to_current_event() {
    let mut parser = Parser::default();

    parser
        .encounter
        .raw_event_log
        .push((1_000, Message::DamageEvent(blank_hit())));
    parser
        .encounter
        .raw_event_log
        .push((5_000, Message::DamageEvent(blank_hit())));

    parser.reparse();

    assert_eq!(parser.derived_state.start_time, 1_000);
    assert_eq!(parser.derived_state.end_time, 5_000);
    assert_eq!(parser.derived_state.duration(), 4_000);
}

#[test]
fn death_before_first_damage_attaches_to_the_exact_actor_and_reparses() {
    let mut parser = Parser::default();

    parser.on_death_event(OnDeathEvent {
        actor_index: 10,
        death_counter: 1,
        is_delta: true,
    });
    parser.on_damage_event(game_2_damage_event(10, 100, Some(100)));
    parser.on_death_event(OnDeathEvent {
        actor_index: 10,
        death_counter: 1,
        is_delta: true,
    });

    assert_eq!(parser.status, ParserStatus::InProgress);
    assert_eq!(parser.derived_state.party[&10].deaths, 2);

    parser.reparse();
    assert_eq!(parser.derived_state.party[&10].deaths, 2);
}

#[test]
fn id_transformation_death_moves_to_base_id_after_owner_discovery() {
    let mut parser = Parser::default();

    parser.on_damage_event(id_transformation_damage(4, 100));
    parser.on_death_event(OnDeathEvent {
        actor_index: 4,
        death_counter: 1,
        is_delta: true,
    });
    parser.on_damage_event(parented_id_transformation_damage(4, 13, 200));

    assert!(!parser.derived_state.party.contains_key(&4));
    assert_eq!(parser.derived_state.party[&13].deaths, 1);
}

#[test]
fn encounter_window_updates_are_coalesced_without_dropping_parser_work() {
    let mut parser = Parser::default();

    parser.queue_encounter_update(1_000);
    assert_eq!(parser.last_encounter_emit_at, 1_000);
    assert!(!parser.encounter_update_pending);

    parser.queue_encounter_update(1_050);
    assert!(parser.encounter_update_pending);
    assert!(!parser.flush_pending_encounter_update(1_099));
    assert!(parser.flush_pending_encounter_update(1_100));
    assert!(!parser.encounter_update_pending);
}
