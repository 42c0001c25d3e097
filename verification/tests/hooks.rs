use gbfr_logs::encounter::INVALID_ID;
use gbfr_logs::float32::Float32;
use gbfr_logs::hooks::damage::stun_value_for_event;
use gbfr_logs::hooks::death::incremented_death_delta;
use gbfr_logs::hooks::equipment::{
    selected_master_trait_nodes, valid_sigil_values, ACTOR_OVERMASTERY_OFFSET,
    ACTOR_PLAYER_STATS_OFFSET, ACTOR_WEAPON_INFO_OFFSET,
};
use gbfr_logs::hooks::ffi::{
    DamageInstance, PlayerStats, VBuffer, WeaponInfo, DAMAGE_ACTION_ID_OFFSET, DAMAGE_CAP_OFFSET,
    DAMAGE_FLAGS_OFFSET, DAMAGE_OFFSET, DAMAGE_STUN_VALUE_OFFSET, PLAYER_STATS_SIZE,
    WEAPON_ATTACK_OFFSET, WEAPON_HP_OFFSET, WEAPON_ID_OFFSET, WEAPON_INFO_SIZE,
    WEAPON_LEVEL_OFFSET, WEAPON_WRIGHTSTONE_ID_OFFSET,
};
use gbfr_logs::hooks::player::{
    damage_cap_enabled, locate_name, read_vbuffer, resolve_identity, should_cache_identity,
    IdentityStore, StoredPlayerIdentity, ACTOR_AI_CONTROLLED_OFFSET, ACTOR_PARTY_INDEX_OFFSET,
    ACTOR_PLAYER_KEY_OFFSET, INVALID_PLAYER_KEY,
};
use gbfr_logs::hooks::quest::{
    validate_quest_snapshot, QuestSnapshot, MAX_REASONABLE_QUEST_SECONDS,
};
use gbfr_logs::hooks::{actor_idx, source_parent_offset, ActorIds};
use gbfr_logs::protocol::ActionType;

fn float(value: f32) -> Float32 {
    Float32::from_bits(value.to_bits())
}

#[test]
fn game_2_per_hit_stun_is_used_directly() {
    assert_eq!(
        stun_value_for_event(&ActionType::Normal(1000), float(41.088)),
        Some(float(41.088))
    );
    assert_eq!(stun_value_for_event(&ActionType::Normal(1000), float(0.0)), None);
    assert_eq!(stun_value_for_event(&ActionType::Normal(1000), float(-1.0)), None);
    assert_eq!(
        stun_value_for_event(&ActionType::Normal(1000), float(f32::NAN)),
        None
    );
}

#[test]
fn supplementary_damage_never_claims_stun() {
    assert_eq!(
        stun_value_for_event(&ActionType::SupplementaryDamage(101), float(39.48)),
        None
    );
}

#[test]
fn reports_only_a_real_counter_increment() {
    assert_eq!(incremented_death_delta(0, 1), Some(1));
    assert_eq!(incremented_death_delta(2, 4), Some(2));
    assert_eq!(incremented_death_delta(3, 3), None);
    assert_eq!(incremented_death_delta(3, 0), None);
}

#[test]
fn damage_instance_matches_game_2_layout() {
    assert_eq!(DAMAGE_OFFSET, 0xD4);
    assert_eq!(DAMAGE_FLAGS_OFFSET, 0xE8);
    assert_eq!(DAMAGE_STUN_VALUE_OFFSET, 0xF4);
    assert_eq!(DAMAGE_ACTION_ID_OFFSET, 0x16C);
    assert_eq!(DAMAGE_CAP_OFFSET, 0x2BC);

    let mut bytes = vec![0u8; 0x2C0];
    bytes[0xD4..0xD8].copy_from_slice(&(-5i32).to_le_bytes());
    bytes[0xE8..0xF0].copy_from_slice(&0x0123_4567_89AB_CDEFu64.to_le_bytes());
    bytes[0xF4..0xF8].copy_from_slice(&41.088f32.to_le_bytes());
    bytes[0x16C..0x170].copy_from_slice(&1000u32.to_le_bytes());
    bytes[0x2BC..0x2C0].copy_from_slice(&99_999i32.to_le_bytes());
    assert_eq!(
        DamageInstance::from_bytes(&bytes),
        Some(DamageInstance {
            damage: -5,
            flags: 0x0123_4567_89AB_CDEF,
            stun_value: float(41.088),
            action_id: 1000,
            damage_cap: 99_999,
        })
    );
    assert_eq!(DamageInstance::from_bytes(&bytes[..0x2BF]), None);
}

#[test]
fn player_equipment_structs_match_game_2_layout() {
    assert_eq!(PLAYER_STATS_SIZE, 0x1C);
    assert_eq!(WEAPON_ID_OFFSET, 0x04);
    assert_eq!(WEAPON_WRIGHTSTONE_ID_OFFSET, 0x38);
    assert_eq!(WEAPON_LEVEL_OFFSET, 0x58);
    assert_eq!(WEAPON_HP_OFFSET, 0x5C);
    assert_eq!(WEAPON_ATTACK_OFFSET, 0x60);
    assert_eq!(WEAPON_INFO_SIZE, 0x64);

    let words: Vec<u8> = (0..25u32).flat_map(|word| word.to_le_bytes()).collect();
    assert_eq!(words.len(), 0x64);
    assert_eq!(
        WeaponInfo::from_bytes(&words),
        Some(WeaponInfo {
            weapon_id: 1,
            weapon_ap_tree: 2,
            weapon_exp: 4,
            star_level: 5,
            plus_marks: 6,
            awakening_level: 7,
            trait_1_id: 8,
            trait_1_level: 9,
            trait_2_id: 10,
            trait_2_level: 11,
            trait_3_id: 12,
            trait_3_level: 13,
            wrightstone_id: 14,
            weapon_level: 22,
            weapon_hp: 23,
            weapon_attack: 24,
        })
    );
    assert_eq!(
        PlayerStats::from_bytes(&words[..0x1C]),
        Some(PlayerStats {
            level: 0,
            total_health: 1,
            total_attack: 2,
            unk_0c: 3,
            stun_power: Float32::from_bits(4),
            critical_rate: Float32::from_bits(5),
            total_power: 6,
        })
    );
}

#[test]
fn concrete_actor_instances_receive_distinct_ids() {
    let mut ids = ActorIds::new();
    let first = 0x1000usize;
    let second = 0x2000usize;

    assert_eq!(actor_idx(&mut ids, first), actor_idx(&mut ids, first));
    assert_ne!(actor_idx(&mut ids, first), actor_idx(&mut ids, second));
}

#[test]
fn only_live_validated_game_2_parent_offsets_are_enabled() {
    assert_eq!(source_parent_offset(0x2AF678E8), Some(0xE58));
    assert_eq!(source_parent_offset(0xC9F45042), Some(0x558));
    assert_eq!(source_parent_offset(0x5B1AB457), Some(0x4E0));
    assert_eq!(source_parent_offset(0x8364C8BC), Some(0x4E8));
    assert_eq!(source_parent_offset(0xF5755C0E), Some(0x1CA80));
    assert_eq!(source_parent_offset(0x69C0CA71), None);
}

fn identity(
    character_name: &str,
    display_name: &str,
    party_index: u8,
    is_online: bool,
) -> StoredPlayerIdentity {
    StoredPlayerIdentity {
        character_name: character_name.to_string(),
        display_name: display_name.to_string(),
        party_index,
        is_online,
    }
}

#[test]
fn reads_inline_utf8_player_name() {
    let mut buffer = [0u8; 0x20];
    let name = "芙劳玩家".as_bytes();
    buffer[..name.len()].copy_from_slice(name);
    buffer[0x10..0x18].copy_from_slice(&(name.len() as u64).to_le_bytes());
    buffer[0x18..0x20].copy_from_slice(&0x0Fu64.to_le_bytes());

    let head = VBuffer::from_bytes(&buffer).expect("whole head");
    let value = read_vbuffer(&head, &buffer[..head.used_size as usize]).expect("valid VBuffer");
    assert_eq!(value, "芙劳玩家");
}

#[test]
fn rejects_unreasonably_large_player_name() {
    let mut buffer = [0u8; 0x20];
    buffer[0x10..0x18].copy_from_slice(&0x101u64.to_le_bytes());
    buffer[0x18..0x20].copy_from_slice(&0x101u64.to_le_bytes());

    let head = VBuffer::from_bytes(&buffer).expect("whole head");
    assert!(locate_name(&head).is_none());
    assert!(read_vbuffer(&head, &[b'x'; 0x101]).is_none());
}

#[test]
fn uses_verified_actor_player_key_offset() {
    assert_eq!(ACTOR_PLAYER_KEY_OFFSET, 0x1AB40);
    assert_eq!(ACTOR_PARTY_INDEX_OFFSET, 0x24);
    assert_eq!(ACTOR_AI_CONTROLLED_OFFSET, 0x774);
    assert_eq!(ACTOR_PLAYER_STATS_OFFSET, 0x15030);
    assert_eq!(ACTOR_WEAPON_INFO_OFFSET, 0x15080);
    assert_eq!(ACTOR_OVERMASTERY_OFFSET, 0x1A8E8);
}

#[test]
fn rejects_remote_offline_placeholder_identity() {
    assert!(!should_cache_identity(&identity(
        "Ferry",
        "Local Player",
        1,
        false
    )));
    assert!(should_cache_identity(&identity(
        "Ferry",
        "Local Player",
        0,
        false
    )));
    assert!(should_cache_identity(&identity(
        "Ferry",
        "Remote Player",
        1,
        true
    )));
}

#[test]
fn damage_cap_is_limited_to_local_and_ai_actors() {
    assert!(damage_cap_enabled(Some(0), Some(false)));
    assert!(damage_cap_enabled(Some(0), Some(true)));
    assert!(damage_cap_enabled(Some(1), Some(true)));
    assert!(!damage_cap_enabled(Some(1), Some(false)));
    assert!(!damage_cap_enabled(None, Some(true)));
    assert!(!damage_cap_enabled(Some(0), None));
}

#[test]
fn replacing_party_slot_keeps_each_identity_bound_to_its_runtime_key() {
    let mut identities = IdentityStore::new();
    assert!(
        identities
            .insert(0x1111, identity("Ferry", "Player A", 2, true), true)
            .mapping_changed
    );
    assert!(
        identities
            .insert(0x2222, identity("Ferry", "Player B", 2, true), true)
            .mapping_changed
    );

    assert_eq!(identities.by_key[&0x1111].display_name, "Player A");
    assert_eq!(identities.by_key[&0x2222].display_name, "Player B");
}

#[test]
fn identity_does_not_require_equipment_snapshot() {
    let mut identities = IdentityStore::new();
    identities.insert(
        0x1000,
        identity("Siegfried", "Local Player", 0, false),
        true,
    );

    let initial = identities.insert(
        0x2000,
        identity("Maglielle", "Remote Player", 2, true),
        false,
    );
    assert!(initial.mapping_changed);
    assert!(!initial.equipment_trusted);
    assert!(identities.by_key.contains_key(&0x2000));

    let real_remote = identities.insert(
        0x3000,
        identity("Cagliostro", "Remote Player", 1, true),
        true,
    );
    assert!(real_remote.equipment_trusted);
}

#[test]
fn missing_equipment_does_not_remove_an_identity() {
    let mut identities = IdentityStore::new();
    identities.insert(0x2000, identity("Fraux", "Remote Player", 3, true), true);

    let removed = identities.insert(0x2000, identity("Fraux", "Remote Player", 3, true), false);
    assert!(!removed.mapping_changed);
    assert!(!removed.equipment_trusted);
    assert!(identities.by_key.contains_key(&0x2000));
    assert_eq!(identities.active_key_by_party.get(&3), Some(&0x2000));
}

#[test]
fn moving_a_player_key_between_slots_does_not_let_old_slot_evict_it() {
    let mut identities = IdentityStore::new();
    identities.insert(0x2000, identity("Fraux", "Remote Player", 1, true), true);
    identities.insert(0x2000, identity("Fraux", "Remote Player", 2, true), true);
    identities.insert(0x3000, identity("Fediel", "Another Player", 1, true), true);

    assert_eq!(identities.by_key[&0x2000].display_name, "Remote Player");
    assert_eq!(identities.active_key_by_party.get(&2), Some(&0x2000));
    assert_eq!(identities.active_key_by_party.get(&1), Some(&0x3000));
}

#[test]
fn resolves_only_exact_keys_and_slots_even_with_stale_character_text() {
    let mut identities = IdentityStore::new();
    identities.insert(0x1111, identity("", "Lynd", 0, false), false);

    assert!(resolve_identity(&identities, 0x1111, 1).is_none());
    assert!(resolve_identity(&identities, 0x9999, 0).is_none());
    assert_eq!(
        resolve_identity(&identities, 0x1111, 0).unwrap().1.display_name,
        "Lynd"
    );
}

#[test]
fn maps_four_same_character_players_only_by_their_exact_keys() {
    let mut identities = IdentityStore::new();
    identities.insert(0x1111, identity("Ferry", "Player A", 0, true), true);
    identities.insert(0x2222, identity("Ferry", "Player B", 1, true), true);
    identities.insert(0x3333, identity("Ferry", "Player C", 2, true), true);
    identities.insert(0x4444, identity("Ferry", "Player D", 3, true), true);

    assert!(resolve_identity(&identities, 0x9999, 0).is_none());
    for (key, party_index, expected_name) in [
        (0x1111, 0, "Player A"),
        (0x2222, 1, "Player B"),
        (0x3333, 2, "Player C"),
        (0x4444, 3, "Player D"),
    ] {
        assert_eq!(
            resolve_identity(&identities, key, party_index)
                .unwrap()
                .1
                .display_name,
            expected_name
        );
    }
}

#[test]
fn master_traits_accept_nonzero_rank_values_and_are_deduplicated() {
    let effects = [(0x1000, 0xAAAA), (0x2000, 0xBBBB), (0x3000, 0xCCCC)];
    let mut data = Vec::new();
    for value in [
        0xAAAA,
        1,
        0xBBBB,
        0,
        0xCCCC,
        2,
        0xAAAA,
        1,
        0xBBBB,
        INVALID_PLAYER_KEY,
    ] {
        data.extend_from_slice(&u32::to_le_bytes(value));
    }

    assert_eq!(
        selected_master_trait_nodes(&data, &effects),
        vec![0x1000, 0x3000]
    );
}

#[test]
fn accepts_remote_sigils_with_missing_trait_metadata() {
    assert!(valid_sigil_values(&[
        0,
        0,
        INVALID_PLAYER_KEY,
        0,
        1_513_492_136,
        0,
        15,
        42,
        2,
    ]));
    assert!(!valid_sigil_values(&[
        0,
        0,
        0,
        0,
        1_513_492_136,
        0,
        0,
        42,
        2,
    ]));
    assert_eq!(INVALID_PLAYER_KEY, INVALID_ID);
}

#[test]
fn accepts_live_game_2_quest_snapshot() {
    assert_eq!(
        validate_quest_snapshot(0x406324, 67, 3000),
        Some(QuestSnapshot {
            quest_id: 0x406324,
            elapsed_time_in_secs: 67,
        })
    );
}

#[test]
fn rejects_invalid_or_inconsistent_quest_snapshots() {
    assert_eq!(validate_quest_snapshot(0, 67, 3000), None);
    assert_eq!(validate_quest_snapshot(0x406324, 3001, 3000), None);
    assert_eq!(
        validate_quest_snapshot(0x406324, MAX_REASONABLE_QUEST_SECONDS + 1, 0),
        None
    );
}
