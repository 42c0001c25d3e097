use std::collections::HashMap;

use gbfr_logs::float32::Float32;
use gbfr_logs::hooks::damage::{
    action_type_for_event, dot_damage_of, stun_value_for_event, DamageActors, DamageCall,
    OnProcessDamageHook, OnProcessDotHook, BURN_DOT_ID, POISON_DOT_ID,
};
use gbfr_logs::hooks::death::{is_player_actor_type, DeathCall, OnDeathHook};
use gbfr_logs::hooks::equipment::{ActorBody, CharacterEffects, MasterTraitEffects};
use gbfr_logs::hooks::ffi::{DamageInstance, QuestState};
use gbfr_logs::hooks::player::{ActorHead, PlayerCaches, StoredPlayerIdentity};
use gbfr_logs::hooks::quest::{
    read_quest_snapshot, OnBattleEndHook, OnLoadQuestHook, OnQuestCompleteHook, QuestSnapshot,
};
use gbfr_logs::hooks::{
    actor_idx, get_source_parent, get_source_parent_instance, setup_hooks, ActorIds, Lookup,
    Outbox, ProcessReads, Query, SetupError, SetupStep,
};
use gbfr_logs::protocol::{
    ActionType, Actor, DamageEvent, Message, OnDeathEvent, PlayerIdentityEvent, QuestCompleteEvent,
};

const PLAYER_TYPE: u32 = 0x4C71_4F77;
const ENEMY_TYPE: u32 = 0x1234_5678;
const TRANSFORMATION_TYPE: u32 = 0xF575_5C0E;
const ID_TYPE: u32 = 0x8056_ABCD;

fn float(value: f32) -> Float32 {
    Float32::from_bits(value.to_bits())
}

/// A game whose memory is a table.
struct Game {
    words: HashMap<usize, usize>,
    halves: HashMap<usize, u32>,
    types: HashMap<usize, u32>,
}

impl Game {
    fn new() -> Self {
        Game {
            words: HashMap::new(),
            halves: HashMap::new(),
            types: HashMap::new(),
        }
    }

    fn read(&self, reads: &mut ProcessReads, query: Query) {
        match query {
            Query::Word(address) => reads.note_word(address, self.words.get(&address).copied()),
            Query::Half(address) => reads.note_half(address, self.halves.get(&address).copied()),
            Query::ActorType(actor) => reads.note_type(actor, self.types[&actor]),
        }
    }

    /// Asks `question` until it has an answer, and counts what had to be read.
    fn answer<T>(&self, mut question: impl FnMut(&ProcessReads) -> Lookup<T>) -> (T, usize) {
        let mut reads = ProcessReads::new();
        let mut asked = Vec::new();
        loop {
            match question(&reads) {
                Lookup::Done(answer) => return (answer, asked.len()),
                Lookup::Needs(query) => {
                    assert!(!asked.contains(&query), "asked twice for {query:?}");
                    asked.push(query);
                    self.read(&mut reads, query);
                }
            }
        }
    }
}

fn damage_call(damage: i32) -> DamageCall {
    DamageCall {
        original_value: 1,
        source_entity: 0x10,
        source: 0x1000,
        target: 0x2000,
        instance: DamageInstance {
            damage,
            flags: 0,
            stun_value: float(12.5),
            action_id: 7,
            damage_cap: 99_999,
        },
    }
}

fn unread_body() -> ActorBody {
    ActorBody {
        stats: [None; 7],
        weapon: [None; 25],
        overmasteries: [None; 16],
        data: None,
    }
}

fn no_effects() -> MasterTraitEffects {
    MasterTraitEffects {
        characters: Vec::new(),
    }
}

#[test]
fn flags_tell_the_kind_of_action() {
    assert_eq!(action_type_for_event(1 << 7, 3), ActionType::LinkAttack);
    assert_eq!(action_type_for_event(1 << 50, 3), ActionType::LinkAttack);
    assert_eq!(action_type_for_event(1 << 13, 3), ActionType::SBA);
    assert_eq!(action_type_for_event(1 << 14, 3), ActionType::SBA);
    assert_eq!(
        action_type_for_event(1 << 15, 3),
        ActionType::SupplementaryDamage(3)
    );
    assert_eq!(action_type_for_event(0, 3), ActionType::Normal(3));
    assert_eq!(
        action_type_for_event(!(1 << 7 | 1 << 50 | 1 << 13 | 1 << 14 | 1 << 15), 3),
        ActionType::Normal(3)
    );
    // A link attack comes before a skybound art, and that before supplementary damage.
    assert_eq!(action_type_for_event(u64::MAX, 3), ActionType::LinkAttack);
    assert_eq!(
        action_type_for_event(1 << 14 | 1 << 15, 3),
        ActionType::SBA
    );
}

#[test]
fn stun_values_end_at_a_million() {
    let action = ActionType::Normal(1);
    assert_eq!(
        stun_value_for_event(&action, float(1_000_000.0)),
        Some(float(1_000_000.0))
    );
    assert_eq!(stun_value_for_event(&action, float(1_000_000.1)), None);
    assert_eq!(stun_value_for_event(&action, float(f32::INFINITY)), None);
    assert_eq!(
        stun_value_for_event(&action, float(f32::from_bits(1))),
        Some(float(f32::from_bits(1)))
    );
    assert_eq!(stun_value_for_event(&action, float(-0.0)), None);
}

#[test]
fn damage_over_time_is_rounded() {
    assert_eq!(dot_damage_of(float(0.49)), None);
    assert_eq!(dot_damage_of(float(0.5)), Some(1));
    assert_eq!(dot_damage_of(float(2.5)), Some(3));
    assert_eq!(dot_damage_of(float(1234.4)), Some(1234));
    assert_eq!(dot_damage_of(float(3.0e9)), Some(i32::MAX));
    assert_eq!(dot_damage_of(float(0.0)), None);
    assert_eq!(dot_damage_of(float(-5.0)), None);
    assert_eq!(dot_damage_of(float(f32::NAN)), None);
    assert_eq!(dot_damage_of(float(f32::INFINITY)), None);
}

#[test]
fn a_call_without_damage_concerns_nobody() {
    let reads = ProcessReads::new();
    for call in [
        damage_call(0),
        damage_call(-1),
        DamageCall {
            original_value: 0,
            ..damage_call(5)
        },
        DamageCall {
            source_entity: 0,
            ..damage_call(5)
        },
    ] {
        assert_eq!(
            OnProcessDamageHook::locate(&reads, &call),
            Lookup::Done(None)
        );
    }
    assert_eq!(
        OnProcessDamageHook::locate(&reads, &damage_call(5)),
        Lookup::Needs(Query::ActorType(0x1000))
    );
}

#[test]
fn a_hit_names_both_ends_and_the_owner() {
    let mut game = Game::new();
    game.types.insert(0x1000, TRANSFORMATION_TYPE);
    game.words.insert(0x1000 + 0x1CA80, 0x5000);
    game.words.insert(0x5000 + 0x70, 0x6000);
    game.types.insert(0x6000, ID_TYPE);
    game.types.insert(0x2000, ENEMY_TYPE);
    let call = damage_call(500);
    let (actors, asked) = game.answer(|reads| OnProcessDamageHook::locate(reads, &call));
    let actors = actors.expect("a hit");
    assert_eq!(asked, 5);
    assert_eq!(
        actors,
        DamageActors {
            source_type: TRANSFORMATION_TYPE,
            parent: Some((ID_TYPE, 0x6000)),
            target_type: ENEMY_TYPE,
        }
    );
    assert_eq!(actors.owner_of(call.source), 0x6000);

    let mut hook = OnProcessDamageHook::new(Outbox::new());
    let mut ids = ActorIds::new();
    let mut caches = PlayerCaches::new();
    let head = ActorHead {
        party_index: None,
        ai_controlled: None,
        player_key: None,
    };
    let indices = hook.observe_source(
        &mut ids,
        &mut caches,
        &call,
        &actors,
        &head,
        None,
        &no_effects(),
    );
    assert_eq!(indices, (0, 1));
    hook.run(&mut ids, &call, &actors, indices);
    assert_eq!(
        hook.tx.drain(),
        vec![Message::DamageEvent(DamageEvent {
            source: Actor {
                index: 0,
                actor_type: TRANSFORMATION_TYPE,
                parent_index: 1,
                parent_actor_type: ID_TYPE,
            },
            target: Actor {
                index: 2,
                actor_type: ENEMY_TYPE,
                parent_index: 2,
                parent_actor_type: ENEMY_TYPE,
            },
            damage: 500,
            flags: 0,
            action_id: ActionType::Normal(7),
            attack_rate: None,
            stun_value: Some(float(12.5)),
            damage_cap: Some(99_999),
        })]
    );
    assert!(hook.tx.drain().is_empty());
}

#[test]
fn an_actor_without_a_readable_parent_stands_for_itself() {
    let mut game = Game::new();
    game.types.insert(0x1000, TRANSFORMATION_TYPE);
    game.types.insert(0x2000, ENEMY_TYPE);
    let call = damage_call(500);
    let (actors, _) = game.answer(|reads| OnProcessDamageHook::locate(reads, &call));
    assert_eq!(actors.expect("a hit").parent, None);

    // A null pointer is no parent either.
    game.words.insert(0x1000 + 0x1CA80, 0);
    let (parent, _) =
        game.answer(|reads| get_source_parent_instance(reads, TRANSFORMATION_TYPE, 0x1000));
    assert_eq!(parent, None);
    game.words.insert(0x1000 + 0x1CA80, usize::MAX);
    let (parent, _) =
        game.answer(|reads| get_source_parent_instance(reads, TRANSFORMATION_TYPE, 0x1000));
    assert_eq!(parent, None);
}

#[test]
fn the_number_of_a_parent_is_given_out_when_all_is_known() {
    let mut ids = ActorIds::new();
    let mut reads = ProcessReads::new();
    assert_eq!(
        get_source_parent(&mut ids, &reads, PLAYER_TYPE, 0x1000),
        Lookup::Done(None)
    );
    assert_eq!(
        get_source_parent(&mut ids, &reads, 0x2AF6_78E8, 0x1000),
        Lookup::Needs(Query::Word(0x1000 + 0xE58))
    );
    reads.note_word(0x1000 + 0xE58, Some(0x5000));
    reads.note_word(0x5000 + 0x70, Some(0x6000));
    assert_eq!(
        get_source_parent(&mut ids, &reads, 0x2AF6_78E8, 0x1000),
        Lookup::Needs(Query::ActorType(0x6000))
    );
    reads.note_type(0x6000, PLAYER_TYPE);
    assert_eq!(actor_idx(&mut ids, 0x9000), 0);
    assert_eq!(
        get_source_parent(&mut ids, &reads, 0x2AF6_78E8, 0x1000),
        Lookup::Done(Some((PLAYER_TYPE, 1)))
    );
    assert_eq!(actor_idx(&mut ids, 0x6000), 1);
    assert_eq!(actor_idx(&mut ids, 0x9000), 0);
}

#[test]
fn a_new_actor_gets_the_number_of_actors_seen_before_it() {
    let mut ids = ActorIds::new();
    for seen in 0..100u32 {
        assert_eq!(actor_idx(&mut ids, 0x1000 + 8 * seen as usize), seen);
        assert_eq!(actor_idx(&mut ids, 0x1000), 0);
    }
}

#[test]
fn an_answer_stands_whatever_is_read_later() {
    let mut reads = ProcessReads::new();
    reads.note_type(0x1000, PLAYER_TYPE);
    reads.note_type(0x2000, ENEMY_TYPE);
    let call = damage_call(1);
    let first = OnProcessDamageHook::locate(&reads, &call);
    reads.note_word(0x1000 + 0xE58, Some(0x5000));
    reads.note_half(0x2000, Some(3));
    reads.note_type(0x3000, ID_TYPE);
    assert_eq!(OnProcessDamageHook::locate(&reads, &call), first);
    assert!(matches!(first, Lookup::Done(Some(_))));
}

#[test]
fn a_known_player_is_reported_before_its_first_hit_and_once() {
    let mut caches = PlayerCaches::new();
    caches.identities.insert(
        0x77,
        StoredPlayerIdentity {
            character_name: "Maglielle".to_string(),
            display_name: "Lynd".to_string(),
            party_index: 2,
            is_online: true,
        },
        false,
    );
    let mut hook = OnProcessDamageHook::new(Outbox::new());
    let mut ids = ActorIds::new();
    let call = damage_call(500);
    let actors = DamageActors {
        source_type: PLAYER_TYPE,
        parent: None,
        target_type: ENEMY_TYPE,
    };
    let head = ActorHead {
        party_index: Some(2),
        ai_controlled: Some(0),
        player_key: Some(0x77),
    };
    let mut body = unread_body();
    body.data = Some([0xAAu32, 1].iter().flat_map(|word| word.to_le_bytes()).collect());
    let effects = MasterTraitEffects {
        characters: vec![CharacterEffects {
            key: "Pl2400".to_string(),
            effects: vec![(0x10, 0xAA)],
        }],
    };
    for round in 0..2 {
        let indices = hook.observe_source(
            &mut ids,
            &mut caches,
            &call,
            &actors,
            &head,
            Some(&body),
            &effects,
        );
        assert_eq!(indices, (0, 0));
        let messages = hook.tx.drain();
        if round == 1 {
            assert!(messages.is_empty());
            continue;
        }
        assert_eq!(messages.len(), 2);
        assert_eq!(
            messages[0],
            Message::PlayerIdentityEvent(PlayerIdentityEvent {
                character_name: "Maglielle".to_string(),
                display_name: "Lynd".to_string(),
                character_type: PLAYER_TYPE,
                party_index: 2,
                actor_index: 0,
                is_online: true,
            })
        );
        match &messages[1] {
            Message::PlayerEquipmentEvent(event) => {
                assert_eq!(event.master_traits, Some(vec![0x10]));
                assert_eq!(event.party_index, 2);
                assert!(event.is_online);
                assert!(event.sigils.is_empty());
                assert!(event.weapon_info.is_none());
            }
            other => panic!("unexpected {other:?}"),
        }
    }
}

fn dot_game(damage: f32) -> Game {
    let mut game = Game::new();
    game.words.insert(0x100 + 0x18, 0x300);
    game.words.insert(0x300 + 0x70, 0x2000);
    game.words.insert(0x100 + 0x30, 0x400);
    game.words.insert(0x400 + 0x70, 0x1000);
    game.halves.insert(0x200 + 0x10, damage.to_bits());
    game.types.insert(0x1000, PLAYER_TYPE);
    game.types.insert(0x2000, ENEMY_TYPE);
    game
}

#[test]
fn poison_and_burning_are_reported_with_their_kind() {
    let game = dot_game(41.6);
    for dot_id in [POISON_DOT_ID, BURN_DOT_ID] {
        let mut hook = OnProcessDotHook::new(Outbox::new());
        let mut ids = ActorIds::new();
        let (_, asked) = game.answer(|reads| {
            if dot_id == POISON_DOT_ID {
                hook.run_poison(&mut ids, reads, 0x100, 0x200)
            } else {
                hook.run_burn(&mut ids, reads, 0x100, 0x200)
            }
        });
        assert_eq!(asked, 7);
        let messages = hook.tx.drain();
        assert_eq!(messages.len(), 1);
        match &messages[0] {
            Message::DamageEvent(event) => {
                assert_eq!(event.damage, 42);
                assert_eq!(event.action_id, ActionType::DamageOverTime(dot_id));
                assert_eq!(event.source.index, 0);
                assert_eq!(event.source.parent_index, 0);
                assert_eq!(event.target.index, 1);
                assert_eq!(event.flags, 0);
                assert_eq!(event.stun_value, None);
                assert_eq!(event.damage_cap, None);
            }
            other => panic!("unexpected {other:?}"),
        }
    }
}

#[test]
fn damage_over_time_without_damage_is_not_reported() {
    let mut cases = vec![dot_game(0.25), dot_game(-3.0), dot_game(f32::NAN)];
    let mut without_target = dot_game(10.0);
    without_target.words.insert(0x300 + 0x70, 0);
    cases.push(without_target);
    let mut without_source = dot_game(10.0);
    without_source.words.remove(&(0x100 + 0x30));
    cases.push(without_source);
    let mut unreadable = dot_game(10.0);
    unreadable.halves.clear();
    cases.push(unreadable);
    for game in cases {
        let mut hook = OnProcessDotHook::new(Outbox::new());
        let mut ids = ActorIds::new();
        game.answer(|reads| hook.emit_dot_event(&mut ids, reads, 0x100, 0x200, BURN_DOT_ID));
        assert!(hook.tx.drain().is_empty());
        assert_eq!(actor_idx(&mut ids, 0x1000), 0);
    }
    let mut hook = OnProcessDotHook::new(Outbox::new());
    let mut ids = ActorIds::new();
    let reads = ProcessReads::new();
    assert_eq!(
        hook.run_poison(&mut ids, &reads, 0, 0x200),
        Lookup::Done(())
    );
    assert_eq!(hook.run_burn(&mut ids, &reads, 0x100, 0), Lookup::Done(()));
    assert!(hook.tx.drain().is_empty());
}

fn death_call(before: u32, after: u32) -> DeathCall {
    DeathCall {
        actor: Some(0x1000),
        count_before: Some(before),
        count_after: Some(after),
    }
}

#[test]
fn deaths_are_reported_for_the_owner() {
    let mut game = Game::new();
    game.types.insert(0x1000, TRANSFORMATION_TYPE);
    game.words.insert(0x1000 + 0x1CA80, 0x5000);
    game.words.insert(0x5000 + 0x70, 0x6000);
    let mut hook = OnDeathHook::new(Outbox::new());
    let mut ids = ActorIds::new();
    assert_eq!(actor_idx(&mut ids, 0x1000), 0);
    let call = death_call(1, 3);
    game.answer(|reads| hook.run(&mut ids, reads, &call));
    assert_eq!(
        hook.tx.drain(),
        vec![Message::OnDeathEvent(OnDeathEvent {
            actor_index: 1,
            death_counter: 2,
            is_delta: true,
        })]
    );
    assert_eq!(actor_idx(&mut ids, 0x6000), 1);
}

#[test]
fn only_deaths_of_players_that_were_read_are_reported() {
    let mut game = Game::new();
    game.types.insert(0x1000, PLAYER_TYPE);
    game.types.insert(0x2000, ENEMY_TYPE);
    let calls = [
        death_call(2, 2),
        death_call(2, 1),
        DeathCall {
            actor: None,
            ..death_call(0, 1)
        },
        DeathCall {
            actor: Some(0),
            ..death_call(0, 1)
        },
        DeathCall {
            actor: Some(0x2000),
            ..death_call(0, 1)
        },
        DeathCall {
            count_before: None,
            ..death_call(0, 1)
        },
        DeathCall {
            count_after: None,
            ..death_call(0, 1)
        },
    ];
    for call in calls {
        let mut hook = OnDeathHook::new(Outbox::new());
        let mut ids = ActorIds::new();
        game.answer(|reads| hook.run(&mut ids, reads, &call));
        assert!(hook.tx.drain().is_empty());
    }
    assert!(is_player_actor_type(PLAYER_TYPE));
    assert!(!is_player_actor_type(ENEMY_TYPE));
    assert_eq!(OnDeathHook::actor_address(0x100), Some(0x110));
    assert_eq!(OnDeathHook::actor_address(usize::MAX), None);
    assert_eq!(OnDeathHook::count_address(0x100), Some(0x204));
    assert_eq!(OnDeathHook::count_address(usize::MAX - 0x103), None);
}

#[test]
fn the_end_of_a_battle_completes_a_known_quest() {
    let mut game = Game::new();
    game.words.insert(0x40, 0x9000);
    game.halves.insert(0x9000 + 0x238, 0x40_6324);
    game.halves.insert(0x9000 + 0xAC8, 67);
    game.halves.insert(0x9000 + 0xAD0, 3000);
    let (quest, asked) = game.answer(|reads| read_quest_snapshot(reads, 0x40));
    assert_eq!(asked, 4);
    assert_eq!(
        quest,
        Some(QuestSnapshot {
            quest_id: 0x40_6324,
            elapsed_time_in_secs: 67,
        })
    );
    let mut hook = OnBattleEndHook::new(Outbox::new());
    hook.run(quest);
    hook.run(None);
    assert_eq!(
        hook.tx.drain(),
        vec![
            Message::OnQuestComplete(QuestCompleteEvent {
                quest_id: 0x40_6324,
                elapsed_time_in_secs: 67,
            }),
            Message::OnBattleEnd,
        ]
    );

    assert_eq!(
        read_quest_snapshot(&ProcessReads::new(), 0),
        Lookup::Done(None)
    );
    game.halves.remove(&(0x9000 + 0xAC8));
    assert_eq!(
        game.answer(|reads| read_quest_snapshot(reads, 0x40)).0,
        None
    );
    game.words.insert(0x40, 0);
    assert_eq!(
        game.answer(|reads| read_quest_snapshot(reads, 0x40)).0,
        None
    );
}

#[test]
fn the_result_screen_completes_the_quest_that_was_loaded() {
    assert_eq!(OnLoadQuestHook::new().run(0x1000), Some(0x11D8));
    assert_eq!(OnLoadQuestHook::new().run(usize::MAX), None);

    let mut bytes = vec![0u8; 0x650];
    bytes[..4].copy_from_slice(&0x1234u32.to_le_bytes());
    bytes[0x64C..].copy_from_slice(&99u32.to_le_bytes());
    let state = QuestState::from_bytes(&bytes);
    assert_eq!(
        state,
        Some(QuestState {
            quest_id: 0x1234,
            elapsed_time: 99,
        })
    );
    assert_eq!(QuestState::from_bytes(&bytes[..0x64F]), None);

    let mut hook = OnQuestCompleteHook::new(Outbox::new());
    hook.run(None);
    assert!(hook.tx.drain().is_empty());
    hook.run(state);
    assert_eq!(
        hook.tx.drain(),
        vec![Message::OnQuestComplete(QuestCompleteEvent {
            quest_id: 0x1234,
            elapsed_time_in_secs: 99,
        })]
    );
}

#[test]
fn installation_needs_the_game_and_the_damage_hook_only() {
    assert_eq!(
        setup_hooks(SetupStep::FindProcess, false),
        Err(SetupError::ProcessNotFound)
    );
    assert_eq!(
        setup_hooks(SetupStep::Damage, false),
        Err(SetupError::DamageHookUnavailable)
    );
    for optional in [true, false] {
        let mut step = SetupStep::FindProcess;
        let mut steps = 0;
        while step != SetupStep::Finished {
            let vital = matches!(step, SetupStep::FindProcess | SetupStep::Damage);
            step = setup_hooks(step, vital || optional).expect("a next step");
            steps += 1;
        }
        assert_eq!(steps, 6);
    }
}
