use gbfr_logs::encounter::INVALID_ID;
use gbfr_logs::float32::Float32;
use gbfr_logs::hooks::equipment::{
    character_key_for_type, read_actor_master_traits, read_actor_overmasteries,
    read_actor_player_stats, read_actor_weapon_info, read_sigils, selected_master_trait_nodes,
    ActorBody, CharacterEffects, MasterTraitEffects,
};
use gbfr_logs::hooks::ffi::{
    Overmasteries, PlayerStats, SigilEntry, SigilList, TextPlace, VBuffer, WeaponInfo,
};
use gbfr_logs::hooks::player::{
    damage_cap_enabled_for_actor, equipment_event_for_actor, equipment_wanted,
    identity_event_for_actor, is_online_state, locate_name, read_party_index, read_player_identity,
    read_vbuffer, resolve_identity, snapshot_wanted, ActorHead, IdentityStore,
    OnLoadPlayerIdentityHook, PlayerCaches, PlayerSnapshot, StoredPlayerIdentity,
    INVALID_PLAYER_KEY,
};
use gbfr_logs::hooks::Outbox;

const FERRY: u32 = 0xFBA6_615D;

fn float(value: f32) -> Float32 {
    Float32::from_bits(value.to_bits())
}

fn no_sigil() -> SigilEntry {
    SigilEntry {
        first_trait_id: 0,
        first_trait_level: 0,
        second_trait_id: 0,
        second_trait_level: 0,
        sigil_id: INVALID_ID,
        equipped_character: 0,
        sigil_level: 0,
        acquisition_count: 0,
        notification_enum: 0,
    }
}

fn sigil(sigil_id: u32) -> SigilEntry {
    SigilEntry {
        sigil_id,
        sigil_level: 15,
        acquisition_count: 3,
        notification_enum: 1,
        ..no_sigil()
    }
}

fn snapshot(party_index: u32, display_name: &str, first_sigil: SigilEntry) -> PlayerSnapshot {
    let mut sigils = [no_sigil(); 12];
    sigils[0] = first_sigil;
    PlayerSnapshot {
        sigils,
        party_index,
        display_name: Some(display_name.to_string()),
        character_name: Some("Ferry".to_string()),
    }
}

fn head(party_index: u32, ai_controlled: u32, player_key: u32) -> ActorHead {
    ActorHead {
        party_index: Some(party_index),
        ai_controlled: Some(ai_controlled),
        player_key: Some(player_key),
    }
}

fn unread_body() -> ActorBody {
    ActorBody {
        stats: [None; 7],
        weapon: [None; 25],
        overmasteries: [None; 16],
        data: None,
    }
}

fn no_effects() -> MasterTraitEffects {
    MasterTraitEffects {
        characters: Vec::new(),
    }
}

fn text_buffer(used_size: u64, max_size: u64, low: u64) -> VBuffer {
    VBuffer {
        low,
        high: 0,
        used_size,
        max_size,
    }
}

#[test]
fn names_must_be_text_without_zero_bytes() {
    let name = |bytes: &[u8]| read_vbuffer(&text_buffer(bytes.len() as u64, 15, 0), bytes);
    assert_eq!(name(b"Ain"), Some("Ain".to_string()));
    assert_eq!(name(b""), Some(String::new()));
    assert_eq!(name(b"A\0n"), None);
    assert_eq!(name(&[0xFF, 0xFE]), None);
    assert_eq!(name(&[0xE8, 0x8A]), None);
    assert_eq!(name(&[0xE8, 0x8A, 0x99]), Some("\u{8299}".to_string()));
}

#[test]
fn a_name_has_as_many_bytes_as_are_used() {
    let buffer = text_buffer(3, 15, 0);
    assert_eq!(read_vbuffer(&buffer, b"Ainsley"), Some("Ain".to_string()));
    assert_eq!(read_vbuffer(&buffer, b"Ain\0\0\0"), Some("Ain".to_string()));
    assert_eq!(read_vbuffer(&buffer, b"Ai"), None);
    assert_eq!(read_vbuffer(&buffer, b""), None);
}

#[test]
fn long_names_stand_elsewhere() {
    assert_eq!(
        locate_name(&text_buffer(3, 15, 0)),
        Some(TextPlace::Inline)
    );
    assert_eq!(
        locate_name(&text_buffer(3, 16, 0x5000)),
        Some(TextPlace::At(0x5000))
    );
    assert_eq!(locate_name(&text_buffer(3, 16, 0)), None);
    assert_eq!(locate_name(&text_buffer(16, 15, 0)), None);
    assert_eq!(locate_name(&text_buffer(3, 0x1001, 0x5000)), None);
    assert_eq!(
        locate_name(&text_buffer(0x100, 0x1000, 0x5000)),
        Some(TextPlace::At(0x5000))
    );
    assert_eq!(locate_name(&text_buffer(0x101, 0x1000, 0x5000)), None);
    assert_eq!(VBuffer::from_bytes(&[0; 0x1F]), None);
}

#[test]
fn states_tell_who_plays_online() {
    for state in 0..=3 {
        assert_eq!(is_online_state(state), Some(false));
    }
    assert_eq!(is_online_state(4), Some(true));
    assert_eq!(is_online_state(5), Some(true));
    assert_eq!(is_online_state(6), None);
    assert_eq!(is_online_state(u32::MAX), None);
}

#[test]
fn only_records_of_players_are_read() {
    assert!(snapshot_wanted(1, 0));
    assert!(snapshot_wanted(0x2000, 5));
    assert!(!snapshot_wanted(0, 0));
    assert!(!snapshot_wanted(INVALID_PLAYER_KEY, 0));
    assert!(!snapshot_wanted(1, 6));
    let hook = OnLoadPlayerIdentityHook::new(Outbox::new());
    let mut caches = PlayerCaches::new();
    let shown = snapshot(0, "Lynd", no_sigil());
    hook.run(&mut caches, INVALID_PLAYER_KEY, 0, Some(&shown));
    hook.run(&mut caches, 1, 6, Some(&shown));
    assert!(caches.identities.by_key.is_empty());
    hook.run(&mut caches, 1, 0, Some(&shown));
    assert!(caches.identities.by_key.contains_key(&1));
}

#[test]
fn there_are_four_party_slots() {
    for slot in 0..4u8 {
        assert_eq!(read_party_index(u32::from(slot)), Some(slot));
    }
    assert_eq!(read_party_index(4), None);
    assert_eq!(read_party_index(256), None);
    assert_eq!(read_party_index(u32::MAX), None);
}

#[test]
fn an_identity_needs_a_slot_and_a_name() {
    let shown = snapshot(3, "Lynd", no_sigil());
    let identity = read_player_identity(&shown, true).expect("an identity");
    assert_eq!(identity.display_name, "Lynd");
    assert_eq!(identity.character_name, "Ferry");
    assert_eq!(identity.party_index, 3);
    assert!(identity.is_online);

    assert!(read_player_identity(&snapshot(4, "Lynd", no_sigil()), true).is_none());
    assert!(read_player_identity(&snapshot(0, "", no_sigil()), true).is_none());
    let mut unreadable = snapshot(0, "Lynd", no_sigil());
    unreadable.display_name = None;
    assert!(read_player_identity(&unreadable, true).is_none());
    let mut nameless = snapshot(0, "Lynd", no_sigil());
    nameless.character_name = None;
    assert_eq!(
        read_player_identity(&nameless, false)
            .expect("an identity")
            .character_name,
        ""
    );
}

#[test]
fn words_of_an_actor_are_checked() {
    assert_eq!(head(3, 0, 7).read_actor_party_index(), Some(3));
    assert_eq!(head(4, 0, 7).read_actor_party_index(), None);
    assert_eq!(head(0, 0, 7).is_ai_controlled_actor(), Some(false));
    assert_eq!(head(0, 1, 7).is_ai_controlled_actor(), Some(true));
    assert_eq!(head(0, 2, 7).is_ai_controlled_actor(), None);
    assert_eq!(head(0, 0, 7).read_actor_player_key(), Some(7));
    assert_eq!(head(0, 0, 0).read_actor_player_key(), None);
    assert_eq!(head(0, 0, INVALID_ID).read_actor_player_key(), None);
    let unread = ActorHead {
        party_index: None,
        ai_controlled: None,
        player_key: None,
    };
    assert_eq!(unread.read_actor_party_index(), None);
    assert_eq!(unread.is_ai_controlled_actor(), None);
    assert_eq!(unread.read_actor_player_key(), None);

    assert!(damage_cap_enabled_for_actor(0x1000, &head(0, 0, 7)));
    assert!(damage_cap_enabled_for_actor(0x1000, &head(2, 1, 7)));
    assert!(!damage_cap_enabled_for_actor(0x1000, &head(2, 0, 7)));
    assert!(!damage_cap_enabled_for_actor(0, &head(0, 0, 7)));
    assert!(!damage_cap_enabled_for_actor(0x1000, &unread));
}

fn stored(display_name: &str, party_index: u8) -> StoredPlayerIdentity {
    StoredPlayerIdentity {
        character_name: "Ferry".to_string(),
        display_name: display_name.to_string(),
        party_index,
        is_online: party_index != 0,
    }
}

#[test]
fn another_local_player_starts_a_new_session() {
    let mut store = IdentityStore::new();
    assert!(!store.insert(0x10, stored("A", 0), true).session_changed);
    store.insert(0x20, stored("B", 1), true);
    let again = store.insert(0x10, stored("A", 0), true);
    assert!(!again.session_changed && !again.mapping_changed);
    assert_eq!(store.by_key.len(), 2);

    let outcome = store.insert(0x11, stored("C", 0), false);
    assert!(outcome.session_changed && outcome.mapping_changed && !outcome.equipment_trusted);
    assert_eq!(store.by_key.len(), 1);
    assert_eq!(store.local_player_key, Some(0x11));
    assert!(resolve_identity(&store, 0x20, 1).is_none());
}

#[test]
fn a_key_stands_in_one_slot() {
    let mut store = IdentityStore::new();
    store.insert(0x20, stored("B", 1), true);
    store.insert(0x30, stored("C", 2), true);
    let moved = store.insert(0x20, stored("B", 2), true);
    assert!(moved.mapping_changed);
    for (party_index, key) in &store.active_key_by_party {
        assert!(resolve_identity(&store, *key, *party_index).is_some());
    }
    assert_eq!(store.active_key_by_party.len(), 1);
    assert_eq!(store.active_key_by_party.get(&2), Some(&0x20));
    // The details of the player that was pushed out are kept.
    assert!(resolve_identity(&store, 0x30, 2).is_some());
    assert!(resolve_identity(&store, 0x20, 1).is_none());

    let renamed = store.insert(0x20, stored("Bee", 2), true);
    assert!(renamed.mapping_changed);
    assert!(!store.insert(0x20, stored("Bee", 2), true).mapping_changed);
}

#[test]
fn worthless_refreshes_change_nothing() {
    let hook = OnLoadPlayerIdentityHook::new(Outbox::new());
    let mut caches = PlayerCaches::new();
    let shown = snapshot(1, "Lynd", sigil(5));
    hook.run(&mut caches, 0, 4, Some(&shown));
    hook.run(&mut caches, INVALID_ID, 4, Some(&shown));
    hook.run(&mut caches, 0x20, 6, Some(&shown));
    hook.run(&mut caches, 0x20, 4, None);
    // A player in another slot who does not play online is a placeholder.
    hook.run(&mut caches, 0x20, 0, Some(&shown));
    hook.run(&mut caches, 0x20, 4, Some(&snapshot(7, "Lynd", sigil(5))));
    assert!(caches.identities.by_key.is_empty());
    assert!(caches.equipment.is_empty());

    hook.run(&mut caches, 0x20, 4, Some(&shown));
    assert_eq!(caches.identities.by_key[&0x20].display_name, "Lynd");
    assert_eq!(caches.equipment[&0x20].party_index, 1);
    assert_eq!(caches.equipment[&0x20].sigils.len(), 1);
}

#[test]
fn a_player_is_reported_once_until_the_mapping_changes() {
    let hook = OnLoadPlayerIdentityHook::new(Outbox::new());
    let mut caches = PlayerCaches::new();
    hook.run(&mut caches, 0x20, 4, Some(&snapshot(1, "Lynd", no_sigil())));
    let actor = head(1, 0, 0x20);

    let event = identity_event_for_actor(&mut caches, 0x1000, &actor, FERRY, 9)
        .expect("a player to report");
    assert_eq!(event.display_name, "Lynd");
    assert_eq!(event.character_name, "Ferry");
    assert_eq!(event.character_type, FERRY);
    assert_eq!((event.party_index, event.actor_index), (1, 9));
    assert!(event.is_online);
    assert!(identity_event_for_actor(&mut caches, 0x1000, &actor, FERRY, 9).is_none());
    // Another actor of the same player is reported on its own.
    assert!(identity_event_for_actor(&mut caches, 0x1100, &actor, FERRY, 10).is_some());

    // The same details again change nothing, others have everything reported anew.
    hook.run(&mut caches, 0x20, 4, Some(&snapshot(1, "Lynd", no_sigil())));
    assert!(identity_event_for_actor(&mut caches, 0x1000, &actor, FERRY, 9).is_none());
    hook.run(&mut caches, 0x20, 4, Some(&snapshot(1, "Lyn", no_sigil())));
    assert_eq!(
        identity_event_for_actor(&mut caches, 0x1000, &actor, FERRY, 9)
            .expect("a player to report")
            .display_name,
        "Lyn"
    );
}

#[test]
fn only_players_that_are_known_and_not_machines_are_reported() {
    let hook = OnLoadPlayerIdentityHook::new(Outbox::new());
    let mut caches = PlayerCaches::new();
    hook.run(&mut caches, 0x20, 4, Some(&snapshot(1, "Lynd", no_sigil())));
    for (address, actor) in [
        (0, head(1, 0, 0x20)),
        (0x1000, head(1, 1, 0x20)),
        (0x1000, head(1, 2, 0x20)),
        (0x1000, head(2, 0, 0x20)),
        (0x1000, head(1, 0, 0x21)),
        (0x1000, head(9, 0, 0x20)),
        (0x1000, head(1, 0, 0)),
    ] {
        assert!(identity_event_for_actor(&mut caches, address, &actor, FERRY, 9).is_none());
    }
}

#[test]
fn equipment_is_reported_once_until_it_changes() {
    let hook = OnLoadPlayerIdentityHook::new(Outbox::new());
    let mut caches = PlayerCaches::new();
    hook.run(&mut caches, 0x20, 4, Some(&snapshot(1, "Lynd", sigil(5))));
    let actor = head(1, 0, 0x20);
    assert!(equipment_wanted(&caches, 0x1000, &actor));
    let event = equipment_event_for_actor(
        &mut caches,
        0x1000,
        &actor,
        &unread_body(),
        FERRY,
        9,
        &no_effects(),
    )
    .expect("equipment to report");
    assert_eq!(event.sigils.len(), 1);
    assert_eq!(event.sigils[0].sigil_id, 5);
    assert!(event.is_online);
    assert_eq!(event.master_traits, None);
    assert!(!equipment_wanted(&caches, 0x1000, &actor));
    assert!(equipment_event_for_actor(
        &mut caches,
        0x1000,
        &actor,
        &unread_body(),
        FERRY,
        9,
        &no_effects()
    )
    .is_none());

    hook.run(&mut caches, 0x20, 4, Some(&snapshot(1, "Lynd", sigil(6))));
    assert!(equipment_wanted(&caches, 0x1000, &actor));
    let event = equipment_event_for_actor(
        &mut caches,
        0x1000,
        &actor,
        &unread_body(),
        FERRY,
        9,
        &no_effects(),
    )
    .expect("equipment to report");
    assert_eq!(event.sigils[0].sigil_id, 6);
}

#[test]
fn machines_report_equipment_as_offline() {
    let mut caches = PlayerCaches::new();
    let mut body = unread_body();
    body.stats = [1000, 1, 2, 0, 0, 0, 3].map(Some);
    body.stats[0] = Some(100);
    for (party_index, machine, online) in [(0, 0, false), (1, 1, false), (1, 0, true)] {
        let event = equipment_event_for_actor(
            &mut caches,
            0x1000 + machine as usize,
            &head(party_index, machine, 0x20),
            &body,
            FERRY,
            9,
            &no_effects(),
        )
        .expect("equipment to report");
        assert_eq!(event.is_online, online);
        assert!(event.player_stats.is_some());
    }
    // Nothing known is nothing to report, and stays wanted.
    let actor = head(2, 1, 0x30);
    assert!(equipment_event_for_actor(
        &mut caches,
        0x3000,
        &actor,
        &unread_body(),
        FERRY,
        9,
        &no_effects()
    )
    .is_none());
    assert!(equipment_wanted(&caches, 0x3000, &actor));
    assert!(!equipment_wanted(&caches, 0, &actor));
    assert!(!equipment_wanted(&caches, 0x3000, &head(2, 5, 0x30)));
}

fn good_stats() -> [Option<u32>; 7] {
    [
        Some(100),
        Some(50_000),
        Some(20_000),
        None,
        Some(41.5f32.to_bits()),
        Some(99.0f32.to_bits()),
        Some(30_000),
    ]
}

#[test]
fn stats_must_be_plausible() {
    let stats = read_actor_player_stats(&good_stats()).expect("stats");
    assert_eq!(stats.level, 100);
    assert_eq!(stats.total_hp, 50_000);
    assert_eq!(stats.total_attack, 20_000);
    assert_eq!(stats.stun_power, float(41.5));
    assert_eq!(stats.critical_rate, float(99.0));
    assert_eq!(stats.total_power, 30_000);
    for (index, word) in [
        (0, Some(0)),
        (0, Some(101)),
        (1, Some(0)),
        (2, Some(0)),
        (4, Some((-1.0f32).to_bits())),
        (4, Some(1_000_001.0f32.to_bits())),
        (4, Some(f32::NAN.to_bits())),
        (5, Some(10_001.0f32.to_bits())),
        (5, Some(f32::INFINITY.to_bits())),
        (6, Some(0)),
        (0, None),
        (6, None),
    ] {
        let mut words = good_stats();
        words[index] = word;
        assert_eq!(read_actor_player_stats(&words), None);
    }
    // Minus zero is zero.
    let mut words = good_stats();
    words[4] = Some((-0.0f32).to_bits());
    assert!(read_actor_player_stats(&words).is_some());
}

fn good_weapon() -> [Option<u32>; 25] {
    let mut words = [None; 25];
    words[1] = Some(0x1CC9_0CAE);
    for (index, word) in words.iter_mut().enumerate().take(15).skip(5) {
        *word = Some(index as u32);
    }
    words[22] = Some(150);
    words[23] = Some(1);
    words[24] = Some(2);
    words
}

#[test]
fn weapons_must_be_plausible() {
    let mut words = good_weapon();
    words[7] = Some(10);
    let weapon = read_actor_weapon_info(&words).expect("a weapon");
    assert_eq!(weapon.weapon_id, 0x1CC9_0CAE);
    assert_eq!(
        (weapon.star_level, weapon.plus_marks, weapon.awakening_level),
        (5, 6, 10)
    );
    assert_eq!((weapon.trait_1_id, weapon.trait_3_level), (8, 13));
    assert_eq!(weapon.wrightstone_id, 14);
    assert_eq!(
        (weapon.weapon_level, weapon.weapon_hp, weapon.weapon_attack),
        (150, 1, 2)
    );
    for (index, word) in [
        (1, Some(0)),
        (1, Some(INVALID_ID)),
        (5, Some(7)),
        (6, Some(100)),
        (7, Some(11)),
        (22, Some(0)),
        (22, Some(151)),
        (23, Some(0)),
        (24, Some(0)),
        (14, None),
    ] {
        let mut words = good_weapon();
        words[index] = word;
        assert_eq!(read_actor_weapon_info(&words), None);
    }
}

#[test]
fn overmasteries_are_skipped_or_rejected() {
    let mut words = [Some(0); 16];
    assert!(read_actor_overmasteries(&words).is_none());
    words[4] = Some(0x77);
    words[5] = Some(0xFFFF);
    words[6] = Some(0x100);
    words[7] = Some(1.5f32.to_bits());
    words[8] = Some(INVALID_ID);
    let info = read_actor_overmasteries(&words).expect("overmasteries");
    assert_eq!(info.overmasteries.len(), 1);
    assert_eq!(info.overmasteries[0].id, 0x77);
    assert_eq!(info.overmasteries[0].flags, 0xFFFF);
    assert_eq!(info.overmasteries[0].value, float(1.5));
    for (index, word) in [
        (5, Some(0x1_0000)),
        (6, Some(0x101)),
        (7, Some(f32::NAN.to_bits())),
        (15, None),
    ] {
        let mut broken = words;
        broken[index] = word;
        assert!(read_actor_overmasteries(&broken).is_none());
    }
}

#[test]
fn sigils_that_cannot_be_are_left_out() {
    let entries = [
        no_sigil(),
        sigil(0),
        sigil(5),
        SigilEntry {
            sigil_level: 16,
            ..sigil(6)
        },
        SigilEntry {
            sigil_level: 0,
            ..sigil(7)
        },
        SigilEntry {
            acquisition_count: 1_000_001,
            ..sigil(8)
        },
        SigilEntry {
            notification_enum: 3,
            ..sigil(9)
        },
        SigilEntry {
            acquisition_count: 1_000_000,
            notification_enum: 2,
            ..sigil(10)
        },
    ];
    let ids: Vec<u32> = read_sigils(&entries)
        .iter()
        .map(|sigil| sigil.sigil_id)
        .collect();
    assert_eq!(ids, vec![5, 10]);
}

#[test]
fn characters_have_keys() {
    assert_eq!(character_key_for_type(0x26A4_848A), Some("Pl0000"));
    assert_eq!(character_key_for_type(0x8056_ABCD), Some("Pl1900"));
    assert_eq!(character_key_for_type(0xF575_5C0E), Some("Pl1900"));
    assert_eq!(character_key_for_type(0x0A58_FB4D), Some("Pl2900"));
    assert_eq!(character_key_for_type(0x1234_5678), None);
}

#[test]
fn master_traits_need_a_listed_character_and_its_bytes() {
    let effects = MasterTraitEffects {
        characters: vec![CharacterEffects {
            key: "Pl0700".to_string(),
            effects: vec![(0x30, 0xCC), (0x10, 0xAA), (0x20, 0xBB), (0x11, 0xAA)],
        }],
    };
    let data: Vec<u8> = [0xCCu32, 1, 0xAA, 5, 0xBB, 0]
        .iter()
        .flat_map(|word| word.to_le_bytes())
        .collect();
    // The last trait listed with an effect has it.
    assert_eq!(
        read_actor_master_traits(&Some(data.clone()), FERRY, &effects),
        Some(vec![0x11, 0x30])
    );
    assert_eq!(read_actor_master_traits(&None, FERRY, &effects), None);
    assert_eq!(
        read_actor_master_traits(&Some(data.clone()), 0x26A4_848A, &effects),
        None
    );
    assert_eq!(
        read_actor_master_traits(&Some(data), 0x1234_5678, &effects),
        None
    );
    assert!(selected_master_trait_nodes(&[], &[(1, 2)]).is_empty());
    assert!(selected_master_trait_nodes(&[0xAA, 0, 0, 0, 1, 0, 0], &[(1, 0xAA)]).is_empty());
}

#[test]
fn a_sigil_list_is_laid_out_as_in_the_game() {
    let mut bytes = vec![0u8; 0x230];
    for index in 0..12u32 {
        for word in 0..9u32 {
            let at = (index * 0x24 + word * 4) as usize;
            bytes[at..at + 4].copy_from_slice(&(index * 100 + word).to_le_bytes());
        }
    }
    bytes[0x1C8..0x1CC].copy_from_slice(&1u32.to_le_bytes());
    bytes[0x1E8] = b'F';
    bytes[0x1F8..0x200].copy_from_slice(&1u64.to_le_bytes());
    bytes[0x208] = b'L';
    bytes[0x220..0x228].copy_from_slice(&15u64.to_le_bytes());
    bytes[0x22C..0x230].copy_from_slice(&2u32.to_le_bytes());
    let list = SigilList::from_bytes(&bytes).expect("a list");
    assert_eq!(list.sigils[11].first_trait_id, 1100);
    assert_eq!(list.sigils[3].sigil_id, 304);
    assert_eq!(list.sigils[3].notification_enum, 308);
    assert_eq!(list.is_online, 1);
    assert_eq!(list.party_index, 2);
    assert_eq!(list.character_name.low, u64::from(b'F'));
    assert_eq!(list.character_name.used_size, 1);
    assert_eq!(list.display_name.low, u64::from(b'L'));
    assert_eq!(list.display_name.max_size, 15);
    assert!(SigilList::from_bytes(&bytes[..0x22F]).is_none());
}

#[test]
fn shorter_records_than_needed_hold_nothing() {
    assert!(Overmasteries::from_bytes(&[0; 0x3F]).is_none());
    assert!(PlayerStats::from_bytes(&[0; 0x1B]).is_none());
    assert!(WeaponInfo::from_bytes(&[0; 0x63]).is_none());
    let bytes: Vec<u8> = (0..16u32).flat_map(|word| word.to_le_bytes()).collect();
    let overmasteries = Overmasteries::from_bytes(&bytes).expect("overmasteries");
    assert_eq!(overmasteries.stats[2].id, 8);
    assert_eq!(overmasteries.stats[3].value, Float32::from_bits(15));
}
