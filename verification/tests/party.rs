use gbfr_logs::constants::CharacterType;
use gbfr_logs::encounter::{OvermasteryInfo, PlayerData, Sigil, WeaponInfo, INVALID_ID};
use gbfr_logs::float32::Float32;
use gbfr_logs::master_traits::{
    empty_sigil, load_for_party, load_sigils_for_party, load_weapon_for_party, newest_save,
    parse_active_builds, parse_active_sigils, parse_active_weapons, parse_sigil_fields,
    parse_single_value_units, weapon_level_from_experience, CachedBuilds, GameTables, SaveCache, SigilTraitRow, SigilTraits,
    ACTIVE_PARTY_UNIT_BASE,
};
use gbfr_logs::parser::party::sigil_from_protocol;
use gbfr_logs::parser::Parser;
use gbfr_logs::protocol;
use gbfr_logs::protocol::{PlayerEquipmentEvent, PlayerIdentityEvent, PlayerLoadEvent};

const FERRY: u32 = 0xFBA6_615D;
const TRANSFORMATION: u32 = 0xF575_5C0E;

fn float(value: f32) -> Float32 {
    Float32::from_bits(value.to_bits())
}

fn traits() -> SigilTraits {
    SigilTraits::from_rows(&[
        SigilTraitRow {
            sigil_id: 50,
            first_trait_id: 1,
            second_trait_id: 2,
        },
        SigilTraitRow {
            sigil_id: 51,
            first_trait_id: 3,
            second_trait_id: INVALID_ID,
        },
        SigilTraitRow {
            sigil_id: 50,
            first_trait_id: 4,
            second_trait_id: 5,
        },
    ])
}

fn tables() -> GameTables {
    GameTables {
        sigil_traits: traits(),
        weapon_experience: vec![0, 10, 100],
    }
}

fn unit(bytes: &mut Vec<u8>, id_type: u32, unit_id: u32, values: &[u32]) {
    let header = [id_type, unit_id, 4, values.len() as u32];
    for word in header.iter().chain(values) {
        bytes.extend_from_slice(&word.to_le_bytes());
    }
}

/// A save file whose first two party members have something equipped.
fn save_file() -> Vec<u8> {
    let mut bytes = vec![0u8; 8];
    for member in 0..2 {
        let party_unit = ACTIVE_PARTY_UNIT_BASE + member;
        let mut nodes = vec![0u32; 50];
        nodes[3] = 0x700 + member;
        nodes[4] = INVALID_ID;
        nodes[49] = 0x800 + member;
        unit(&mut bytes, 3007, party_unit, &nodes);
        unit(&mut bytes, 1402, party_unit, &[60 + member]);
        unit(&mut bytes, 2802, 40_000 + member, &[60 + member]);
        unit(&mut bytes, 2803, 40_000 + member, &[0x111 + member]);
        unit(&mut bytes, 2804, 40_000 + member, &[50]);
        unit(&mut bytes, 2805, 40_000 + member, &[6 + member]);
        unit(&mut bytes, 2806, 40_000 + member, &[99 + member]);
        unit(&mut bytes, 2807, 40_000 + member, &[10 + member]);
        unit(&mut bytes, 2816, 40_000 + member, &[member]);
        let mut slots = vec![0u32; 12];
        slots[1] = 900 + member;
        slots[2] = 999;
        unit(&mut bytes, 1403, party_unit, &slots);
        unit(&mut bytes, 2702, 30_000 + member, &[900 + member]);
        unit(&mut bytes, 2703, 30_000 + member, &[50 + member]);
        unit(&mut bytes, 2704, 30_000 + member, &[15 + member]);
    }
    bytes
}

fn saved() -> CachedBuilds {
    CachedBuilds::read("SaveData1.dat".to_string(), 7, &save_file(), &tables())
}

#[test]
fn a_save_file_tells_builds_weapons_and_sigils() {
    let save = saved();
    assert_eq!(save.builds[0], vec![0x700, 0x800]);
    assert_eq!(save.builds[1], vec![0x701, 0x801]);
    assert!(save.builds[2].is_empty());

    let first = save.weapons[0].expect("a weapon");
    assert_eq!(first.weapon_id, 0x111);
    assert_eq!((first.star_level, first.plus_marks), (6, 99));
    assert_eq!(first.awakening_level, 10);
    assert_eq!(first.weapon_level, 2);
    assert_eq!(first.wrightstone_id, INVALID_ID);
    assert_eq!(first.trait_1_id, INVALID_ID);
    // Values that cannot be are dropped.
    let second = save.weapons[1].expect("a weapon");
    assert_eq!((second.star_level, second.plus_marks), (0, 0));
    assert_eq!(second.awakening_level, 0);
    assert_eq!(second.wrightstone_id, 1);
    assert!(save.weapons[2].is_none());

    assert_eq!(save.sigils[0].len(), 12);
    assert_eq!(save.sigils[0][0], empty_sigil());
    let sigil = save.sigils[0][1];
    assert_eq!(sigil.sigil_id, 50);
    // The last row of the table counts.
    assert_eq!((sigil.first_trait_id, sigil.second_trait_id), (4, 5));
    assert_eq!((sigil.first_trait_level, sigil.second_trait_level), (15, 15));
    assert_eq!(sigil.acquisition_count, 900);
    assert_eq!(sigil.equipped_character, INVALID_ID);
    // A number that nothing was acquired under is an empty slot.
    assert_eq!(save.sigils[0][2], empty_sigil());
    let sigil = save.sigils[1][1];
    assert_eq!(sigil.sigil_level, 0);
    assert_eq!((sigil.first_trait_id, sigil.first_trait_level), (3, 0));
    assert_eq!(sigil.second_trait_id, INVALID_ID);
    assert!(save.sigils[3].is_empty());
}

#[test]
fn an_empty_slot_names_nothing() {
    let sigil = empty_sigil();
    assert_eq!(sigil.sigil_id, INVALID_ID);
    assert_eq!(sigil.first_trait_id, INVALID_ID);
    assert_eq!(sigil.second_trait_id, INVALID_ID);
    assert_eq!(sigil.sigil_level, 0);
}

#[test]
fn the_last_unit_in_a_file_counts() {
    let mut bytes = save_file();
    let mut nodes = vec![0u32; 50];
    nodes[0] = 0xABC;
    unit(&mut bytes, 3007, ACTIVE_PARTY_UNIT_BASE, &nodes);
    unit(&mut bytes, 2803, 40_000, &[0x999]);
    assert_eq!(parse_active_builds(&bytes)[0], vec![0xABC]);
    assert_eq!(
        parse_active_weapons(&bytes, &[0])[0].expect("a weapon").weapon_id,
        0x999
    );
    let values = parse_single_value_units(&bytes);
    assert_eq!(values.get(2803, 40_000), Some(0x999));
    assert_eq!(values.get(2803, 40_001), Some(0x112));
    assert_eq!(values.get(2803, 40_002), None);
    assert_eq!(values.first_unit(2802, 61), Some(40_001));
    assert_eq!(values.first_unit(2802, 62), None);
    // Of two units in one slot the one with the smaller id counts.
    unit(&mut bytes, 2802, 39_999, &[61]);
    assert_eq!(
        parse_single_value_units(&bytes).first_unit(2802, 61),
        Some(39_999)
    );
    assert!(parse_active_weapons(&bytes, &[0])[1].is_none());
}

#[test]
fn units_of_weapons_and_of_sigils_are_read_apart() {
    let mut bytes = Vec::new();
    unit(&mut bytes, 2702, 30_001, &[42]);
    unit(&mut bytes, 2803, 40_000, &[7]);
    unit(&mut bytes, 9999, 1, &[8]);
    unit(&mut bytes, 2804, 40_000, &[5, 6]);
    let weapons = parse_single_value_units(&bytes);
    assert_eq!(weapons.get(2702, 30_001), None);
    assert_eq!(weapons.get(2803, 40_000), Some(7));
    assert_eq!(weapons.get(9999, 1), None);
    assert_eq!(weapons.get(2804, 40_000), None);
    let sigils = parse_sigil_fields(&bytes);
    assert_eq!(sigils.get(2702, 30_001), Some(42));
    assert_eq!(sigils.get(2803, 40_000), None);
    assert_eq!(sigils.get(9999, 1), None);
    for id_type in [1402, 2802, 2803, 2804, 2805, 2806, 2807, 2816] {
        let mut bytes = Vec::new();
        unit(&mut bytes, id_type, 5, &[6]);
        assert_eq!(parse_single_value_units(&bytes).get(id_type, 5), Some(6));
        assert_eq!(parse_sigil_fields(&bytes).get(id_type, 5), None);
    }
    for id_type in [2702, 2703, 2704, 2706, 2707] {
        let mut bytes = Vec::new();
        unit(&mut bytes, id_type, 5, &[6]);
        assert_eq!(parse_sigil_fields(&bytes).get(id_type, 5), Some(6));
        assert_eq!(parse_single_value_units(&bytes).get(id_type, 5), None);
    }
}

#[test]
fn files_without_units_tell_nothing() {
    for bytes in [vec![], vec![0; 15], vec![0xFF; 400]] {
        assert!(parse_active_builds(&bytes).iter().all(Vec::is_empty));
        assert!(parse_active_weapons(&bytes, &[0]).iter().all(Option::is_none));
        assert!(parse_active_sigils(&bytes, &traits()).iter().all(Vec::is_empty));
    }
    // A list that is cut off, or too short, is none.
    let mut cut = Vec::new();
    unit(&mut cut, 1403, ACTIVE_PARTY_UNIT_BASE, &[0; 12]);
    assert_eq!(parse_active_sigils(&cut, &traits())[0].len(), 12);
    cut.truncate(cut.len() - 4);
    assert!(parse_active_sigils(&cut, &traits())[0].is_empty());
    let mut short = Vec::new();
    unit(&mut short, 1403, ACTIVE_PARTY_UNIT_BASE, &[0; 11]);
    short.extend([0; 64]);
    assert!(parse_active_sigils(&short, &traits())[0].is_empty());
}

#[test]
fn levels_rise_with_experience() {
    let thresholds = [0, 10, 100];
    let levels: Vec<u32> = [0, 9, 10, 99, 100, u32::MAX]
        .iter()
        .map(|experience| weapon_level_from_experience(&thresholds, *experience))
        .collect();
    assert_eq!(levels, vec![1, 1, 2, 2, 3, 3]);
    assert_eq!(weapon_level_from_experience(&[], 5), 0);
}

#[test]
fn the_save_file_written_last_counts() {
    assert_eq!(newest_save(&[None, None, None]), None);
    assert_eq!(newest_save(&[Some(5), None, Some(4)]), Some(0));
    assert_eq!(newest_save(&[Some(-5), None, Some(-4)]), Some(2));
    assert_eq!(newest_save(&[Some(5), Some(5), None]), Some(1));
}

#[test]
fn a_save_file_is_read_again_when_it_changes() {
    let path = "SaveData1.dat".to_string();
    let mut cache = SaveCache { cached: None };
    assert!(!cache.holds(&path, 7));
    cache.refresh(path.clone(), 7, &save_file(), &tables());
    assert!(cache.holds(&path, 7));
    assert!(!cache.holds(&path, 8));
    assert!(!cache.holds(&"SaveData2.dat".to_string(), 7));
    cache.refresh(path.clone(), 7, &[], &tables());
    assert_eq!(load_for_party(cache.cached.as_ref(), 0), vec![0x700, 0x800]);
    cache.refresh(path, 8, &[], &tables());
    assert!(load_for_party(cache.cached.as_ref(), 0).is_empty());
}

#[test]
fn only_party_members_have_something_saved() {
    let save = saved();
    assert_eq!(load_for_party(Some(&save), 1), vec![0x701, 0x801]);
    assert_eq!(load_sigils_for_party(Some(&save), 1).len(), 12);
    assert!(load_weapon_for_party(Some(&save), 1).is_some());
    for index in [4, 255] {
        assert!(load_for_party(Some(&save), index).is_empty());
        assert!(load_sigils_for_party(Some(&save), index).is_empty());
        assert!(load_weapon_for_party(Some(&save), index).is_none());
    }
    assert!(load_for_party(None, 0).is_empty());
    assert!(load_sigils_for_party(None, 0).is_empty());
    assert!(load_weapon_for_party(None, 0).is_none());
}

fn reported_sigil(sigil_id: u32, level: u32, sigil_level: u32) -> protocol::Sigil {
    protocol::Sigil {
        first_trait_id: 7,
        first_trait_level: level,
        second_trait_id: INVALID_ID,
        second_trait_level: level,
        sigil_id,
        equipped_character: 8,
        sigil_level,
        acquisition_count: 9,
        notification_enum: 1,
    }
}

#[test]
fn levels_of_traits_fall_back_to_that_of_the_sigil() {
    let record = |sigil| sigil_from_protocol(sigil, &traits());
    let known = record(reported_sigil(51, 12, 15));
    assert_eq!((known.first_trait_id, known.first_trait_level), (3, 12));
    assert_eq!(
        (known.second_trait_id, known.second_trait_level),
        (INVALID_ID, 0)
    );
    let unlisted = record(reported_sigil(60, 0, 15));
    assert_eq!((unlisted.first_trait_id, unlisted.first_trait_level), (7, 15));
    assert_eq!(record(reported_sigil(60, 16, 14)).first_trait_level, 14);
    assert_eq!(record(reported_sigil(60, 16, 16)).first_trait_level, 0);
    assert_eq!(unlisted.equipped_character, 8);
    assert_eq!(unlisted.acquisition_count, 9);
    assert_eq!(unlisted.notification_enum, 1);
    assert_eq!(unlisted.sigil_level, 15);
}

fn reported_weapon(weapon_id: u32) -> protocol::WeaponInfo {
    protocol::WeaponInfo {
        weapon_id,
        star_level: 1,
        plus_marks: 2,
        awakening_level: 3,
        trait_1_id: 4,
        trait_1_level: 5,
        trait_2_id: 6,
        trait_2_level: 7,
        trait_3_id: 8,
        trait_3_level: 9,
        wrightstone_id: 10,
        weapon_level: 11,
        weapon_hp: 12,
        weapon_attack: 13,
    }
}

fn reported_stats(level: u32) -> protocol::PlayerStats {
    protocol::PlayerStats {
        level,
        total_hp: 1,
        total_attack: 2,
        stun_power: float(3.5),
        critical_rate: float(4.5),
        total_power: 5,
    }
}

fn load(character_type: u32, party_index: u8, is_online: bool) -> PlayerLoadEvent {
    PlayerLoadEvent {
        sigils: vec![reported_sigil(51, 12, 15)],
        character_name: "Ferry".to_string(),
        display_name: "Lynd".to_string(),
        character_type,
        party_index,
        actor_index: 40,
        is_online,
        weapon_info: reported_weapon(77),
        overmastery_info: protocol::OvermasteryInfo {
            overmasteries: vec![protocol::Overmastery {
                id: 1,
                flags: 2,
                value: float(2.5),
            }],
        },
        player_stats: reported_stats(100),
    }
}

#[test]
fn loading_a_player_takes_in_everything() {
    let save = saved();
    let mut parser = Parser::default();
    assert!(!parser.on_player_load_event(load(TRANSFORMATION, 0, false), &traits(), Some(&save)));
    assert!(parser.encounter.player_data.iter().all(Option::is_none));

    assert!(parser.on_player_load_event(load(FERRY, 1, false), &traits(), Some(&save)));
    let player = parser.encounter.player_data[1].as_ref().expect("a player");
    assert_eq!(player.actor_index, 40);
    assert_eq!(player.display_name, "Lynd");
    assert_eq!(player.character_name, "Ferry");
    assert_eq!(player.character_type, CharacterType::Pl0700);
    assert_eq!(player.sigils.len(), 1);
    assert_eq!(player.sigils[0].first_trait_id, 3);
    assert_eq!(player.weapon_info, Some(WeaponInfo::from(reported_weapon(77))));
    assert_eq!(
        player.overmastery_info.as_ref().expect("overmasteries").overmasteries[0].value,
        float(2.5)
    );
    let stats = player.player_stats.expect("stats");
    assert_eq!((stats.level, stats.total_power), (100, 5));
    assert_eq!(stats.stun_power, float(3.5));
    assert_eq!(player.master_traits, vec![0x701, 0x801]);

    // The same actor in another slot leaves the first one.
    parser.on_player_load_event(load(FERRY, 3, true), &traits(), Some(&save));
    assert!(parser.encounter.player_data[1].is_none());
    let player = parser.encounter.player_data[3].as_ref().expect("a player");
    assert!(player.is_online);
    assert!(player.master_traits.is_empty());

    // There is no fifth slot: the actor leaves the party.
    parser.on_player_load_event(load(FERRY, 4, true), &traits(), None);
    assert!(parser.encounter.player_data.iter().all(Option::is_none));
}

fn identity(party_index: u8, is_online: bool) -> PlayerIdentityEvent {
    PlayerIdentityEvent {
        character_name: "Ferry".to_string(),
        display_name: "Lynd".to_string(),
        character_type: FERRY,
        party_index,
        actor_index: 40,
        is_online,
    }
}

fn known(is_online: bool) -> PlayerData {
    PlayerData {
        actor_index: 40,
        display_name: "Before".to_string(),
        character_name: "Before".to_string(),
        character_type: CharacterType::Pl0100,
        sigils: vec![Sigil {
            sigil_id: 123,
            ..empty_sigil()
        }],
        is_online,
        weapon_info: Some(WeaponInfo::from(reported_weapon(55))),
        overmastery_info: Some(OvermasteryInfo {
            overmasteries: Vec::new(),
        }),
        player_stats: Some(reported_stats(9).into()),
        master_traits: vec![1, 2],
    }
}

fn parser_with(player: Option<PlayerData>) -> Parser {
    let mut parser = Parser::default();
    parser.encounter.player_data[1] = player;
    parser
}

#[test]
fn an_identity_keeps_what_was_known_of_the_same_kind_of_player() {
    let save = saved();
    for is_online in [true, false] {
        let mut parser = parser_with(Some(known(is_online)));
        parser.on_player_identity_event(identity(1, is_online), Some(&save));
        let player = parser.encounter.player_data[1].as_ref().expect("a player");
        assert_eq!(player.display_name, "Lynd");
        assert_eq!(player.character_type, CharacterType::Pl0700);
        assert_eq!(player.sigils[0].sigil_id, 123);
        assert_eq!(player.weapon_info.expect("a weapon").weapon_id, 55);
        assert!(player.overmastery_info.is_some() && player.player_stats.is_some());
        assert_eq!(player.master_traits.is_empty(), is_online);
    }
}

#[test]
fn an_identity_of_another_kind_drops_what_was_known() {
    let save = saved();
    let mut parser = parser_with(Some(known(false)));
    parser.on_player_identity_event(identity(1, true), Some(&save));
    let player = parser.encounter.player_data[1].as_ref().expect("a player");
    assert!(player.sigils.is_empty() && player.weapon_info.is_none());
    assert!(player.overmastery_info.is_none() && player.player_stats.is_none());
    assert!(player.master_traits.is_empty());

    let mut parser = parser_with(Some(known(true)));
    parser.on_player_identity_event(identity(1, false), Some(&save));
    let player = parser.encounter.player_data[1].as_ref().expect("a player");
    assert_eq!(player.sigils.len(), 12);
    assert_eq!(player.weapon_info.expect("a weapon").weapon_id, 0x112);
    assert!(player.overmastery_info.is_none() && player.player_stats.is_none());
    assert_eq!(player.master_traits, vec![0x701, 0x801]);
}

#[test]
fn an_unknown_local_player_is_filled_in_from_the_save_file() {
    let save = saved();
    let mut parser = parser_with(None);
    assert!(parser.on_player_identity_event(identity(0, false), Some(&save)));
    let player = parser.encounter.player_data[0].as_ref().expect("a player");
    assert_eq!(player.sigils[1].sigil_id, 50);
    assert_eq!(player.weapon_info.expect("a weapon").weapon_id, 0x111);
    assert_eq!(player.master_traits, vec![0x700, 0x800]);

    let mut parser = parser_with(None);
    let mut transformed = identity(0, false);
    transformed.character_type = TRANSFORMATION;
    assert!(!parser.on_player_identity_event(transformed, Some(&save)));
    assert!(parser.encounter.player_data.iter().all(Option::is_none));
}

fn equipment(party_index: u8, is_online: bool) -> PlayerEquipmentEvent {
    PlayerEquipmentEvent {
        sigils: Vec::new(),
        weapon_info: None,
        overmastery_info: None,
        player_stats: None,
        master_traits: None,
        character_type: FERRY,
        party_index,
        actor_index: 40,
        is_online,
    }
}

#[test]
fn equipment_reports_replace_what_they_tell() {
    let save = saved();
    let mut parser = parser_with(Some(known(true)));
    let mut event = equipment(1, true);
    event.sigils = (0..14).map(|id| reported_sigil(60 + id, 1, 15)).collect();
    event.weapon_info = Some(reported_weapon(66));
    event.player_stats = Some(reported_stats(44));
    event.master_traits = Some(vec![5]);
    assert!(parser.on_player_equipment_event(event, &traits(), Some(&save)));
    let player = parser.encounter.player_data[1].as_ref().expect("a player");
    assert_eq!(player.sigils.len(), 12);
    assert_eq!(player.sigils[11].sigil_id, 71);
    assert_eq!(player.weapon_info.expect("a weapon").weapon_id, 66);
    assert_eq!(player.player_stats.expect("stats").level, 44);
    assert!(player.overmastery_info.is_some());
    assert_eq!(player.master_traits, vec![5]);
    assert_eq!(player.display_name, "Before");
}

#[test]
fn equipment_reports_leave_what_they_do_not_tell() {
    let save = saved();
    // An online player who was one before.
    let mut parser = parser_with(Some(known(true)));
    parser.on_player_equipment_event(equipment(1, true), &traits(), Some(&save));
    let player = parser.encounter.player_data[1].as_ref().expect("a player");
    assert_eq!(player.sigils[0].sigil_id, 123);
    assert_eq!(player.weapon_info.expect("a weapon").weapon_id, 55);
    assert!(player.master_traits.is_empty());

    // An online player who was local before.
    let mut parser = parser_with(Some(known(false)));
    parser.on_player_equipment_event(equipment(1, true), &traits(), Some(&save));
    let player = parser.encounter.player_data[1].as_ref().expect("a player");
    assert!(player.weapon_info.is_none() && player.overmastery_info.is_none());
    assert!(player.player_stats.is_none());
    assert_eq!(player.display_name, "Before");

    // The local player keeps the name, and the machine's party members have none.
    let mut parser = parser_with(Some(known(false)));
    parser.on_player_equipment_event(equipment(0, false), &traits(), Some(&save));
    let player = parser.encounter.player_data[0].as_ref().expect("a player");
    assert_eq!(player.display_name, "Before");
    assert_eq!(player.master_traits, vec![0x700, 0x800]);
    assert_eq!(player.weapon_info.expect("a weapon").weapon_id, 55);

    let mut parser = parser_with(None);
    parser.on_player_equipment_event(equipment(1, false), &traits(), Some(&save));
    let player = parser.encounter.player_data[1].as_ref().expect("a player");
    assert!(player.display_name.is_empty());
    assert_eq!(player.weapon_info.expect("a weapon").weapon_id, 0x112);
    assert!(player.sigils.is_empty());

    let mut parser = parser_with(None);
    let mut transformed = equipment(1, false);
    transformed.character_type = TRANSFORMATION;
    assert!(!parser.on_player_equipment_event(transformed, &traits(), None));
    assert!(parser.encounter.player_data.iter().all(Option::is_none));
}
