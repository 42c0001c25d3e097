use gbfr_logs::encounter::INVALID_ID;
use gbfr_logs::master_traits::{
    parse_active_builds, parse_active_sigils, parse_active_weapons, weapon_level_from_experience,
    SigilTraitRow, SigilTraits, ACTIVE_PARTY_UNIT_BASE,
};

/// A table of 150 levels that begins and ends like that of the game.
fn weapon_experience() -> Vec<u32> {
    let mut thresholds = vec![0, 10];
    thresholds.extend((1..=147).map(|step| 10 + step * 1_000));
    thresholds.push(162_540);
    thresholds
}

fn write_unit(bytes: &mut [u8], offset: usize, id_type: u32, unit_id: u32, value: u32) {
    for (at, entry) in [
        (offset, id_type),
        (offset + 4, unit_id),
        (offset + 8, 4),
        (offset + 12, 1),
        (offset + 16, value),
    ] {
        bytes[at..at + 4].copy_from_slice(&entry.to_le_bytes());
    }
}

fn write_vector_unit(
    bytes: &mut [u8],
    offset: usize,
    id_type: u32,
    unit_id: u32,
    values: &[u32],
) {
    for (at, entry) in [
        (offset, id_type),
        (offset + 4, unit_id),
        (offset + 8, 4),
        (offset + 12, values.len() as u32),
    ] {
        bytes[at..at + 4].copy_from_slice(&entry.to_le_bytes());
    }
    for (index, value) in values.iter().enumerate() {
        let at = offset + 16 + index * 4;
        bytes[at..at + 4].copy_from_slice(&value.to_le_bytes());
    }
}

#[test]
fn parses_only_active_party_master_trait_units() {
    let mut bytes = vec![0u8; 0x400];
    let offset = 0x80;
    for (at, value) in [
        (offset, 3007),
        (offset + 4, ACTIVE_PARTY_UNIT_BASE + 2),
        (offset + 8, 4),
        (offset + 12, 50),
        (offset + 16, 0x1234_5678),
        (offset + 20, INVALID_ID),
        (offset + 24, 0xAABB_CCDD),
    ] {
        bytes[at..at + 4].copy_from_slice(&value.to_le_bytes());
    }

    let builds = parse_active_builds(&bytes);
    assert!(builds[0].is_empty());
    assert!(builds[1].is_empty());
    assert_eq!(builds[2], vec![0x1234_5678, 0xAABB_CCDD]);
    assert!(builds[3].is_empty());
}

#[test]
fn ignores_preset_units_with_the_same_value_shape() {
    let mut bytes = vec![0u8; 0x200];
    for (at, value) in [(0x40, 3007u32), (0x44, 20_195), (0x48, 4), (0x4C, 50)] {
        bytes[at..at + 4].copy_from_slice(&value.to_le_bytes());
    }
    bytes[0x50..0x54].copy_from_slice(&0x1234_5678u32.to_le_bytes());
    assert!(parse_active_builds(&bytes).iter().all(Vec::is_empty));
}

#[test]
fn resolves_active_party_weapon_through_its_inventory_slot() {
    let mut bytes = vec![0u8; 0x800];
    write_unit(&mut bytes, 0x040, 1402, ACTIVE_PARTY_UNIT_BASE + 1, 69);
    write_unit(&mut bytes, 0x100, 2802, 40_066, 69);
    write_unit(&mut bytes, 0x160, 2803, 40_066, 0x1CC9_0CAE);
    write_unit(&mut bytes, 0x1A0, 2804, 40_066, 162_540);
    write_unit(&mut bytes, 0x1C0, 2805, 40_066, 6);
    write_unit(&mut bytes, 0x220, 2806, 40_066, 99);
    write_unit(&mut bytes, 0x280, 2807, 40_066, 2);
    write_unit(&mut bytes, 0x340, 2816, 40_066, 0x0BD3_73A4);

    let weapons = parse_active_weapons(&bytes, &weapon_experience());
    assert!(weapons[0].is_none());
    let weapon = weapons[1].as_ref().expect("party 2 weapon");
    assert_eq!(weapon.weapon_id, 0x1CC9_0CAE);
    assert_eq!(weapon.star_level, 6);
    assert_eq!(weapon.plus_marks, 99);
    assert_eq!(weapon.awakening_level, 2);
    assert_eq!(weapon.weapon_level, 150);
    assert_eq!(weapon.wrightstone_id, 0x0BD3_73A4);
    assert!(weapons[2].is_none());
    assert!(weapons[3].is_none());
}

#[test]
fn converts_saved_weapon_experience_to_level() {
    let table = weapon_experience();
    assert_eq!(weapon_level_from_experience(&table, 0), 1);
    assert_eq!(weapon_level_from_experience(&table, 9), 1);
    assert_eq!(weapon_level_from_experience(&table, 10), 2);
    assert_eq!(weapon_level_from_experience(&table, 162_539), 149);
    assert_eq!(weapon_level_from_experience(&table, 162_540), 150);
}

#[test]
fn resolves_exactly_twelve_active_sigils_through_acquisition_ids() {
    let mut bytes = vec![0u8; 0x1000];
    let mut slots = vec![0u32; 13];
    slots[0] = 42;
    slots[2] = 43;
    write_vector_unit(&mut bytes, 0x040, 1403, ACTIVE_PARTY_UNIT_BASE, &slots);

    let inventory_unit = 30_001;
    write_unit(&mut bytes, 0x100, 2702, inventory_unit, 42);
    write_unit(&mut bytes, 0x160, 2703, inventory_unit, 858_692_400);
    write_unit(&mut bytes, 0x1C0, 2704, inventory_unit, 15);
    write_unit(&mut bytes, 0x220, 2706, inventory_unit, 1_652_280_077);
    write_unit(&mut bytes, 0x280, 2707, inventory_unit, 2);

    let traits = SigilTraits::from_rows(&[SigilTraitRow {
        sigil_id: 858_692_400,
        first_trait_id: 4_001_746_207,
        second_trait_id: INVALID_ID,
    }]);
    let sigils = parse_active_sigils(&bytes, &traits);
    assert_eq!(sigils[0].len(), 12);
    assert_eq!(sigils[0][0].sigil_id, 858_692_400);
    assert_eq!(sigils[0][0].first_trait_id, 4_001_746_207);
    assert_eq!(sigils[0][0].first_trait_level, 15);
    assert_eq!(sigils[0][0].second_trait_id, INVALID_ID);
    assert_eq!(sigils[0][0].acquisition_count, 42);
    assert_eq!(sigils[0][0].equipped_character, 1_652_280_077);
    assert_eq!(sigils[0][0].notification_enum, 2);
    assert_eq!(sigils[0][1].sigil_id, INVALID_ID);
    assert_eq!(sigils[0][2].sigil_id, INVALID_ID);
    assert!(sigils[1].is_empty());
    assert!(sigils[2].is_empty());
    assert!(sigils[3].is_empty());
}

/// Rows of the table of sigil traits, in the form in which the game data is bundled.
const SIGIL_TRAITS: &str = r#"{"sigils":[
    {"sigilId":3760801040,"firstTraitId":1470847760,"secondTraitId":3769368062},
    {"sigilId":1862062726,"firstTraitId":1280871463,"secondTraitId":1072455552},
    {"sigilId":1225749252,"firstTraitId":612907763,"secondTraitId":3468099822},
    {"sigilId":3634652401,"firstTraitId":2069563421,"secondTraitId":2597196811},
    {"sigilId":3896853593,"firstTraitId":801700863,"secondTraitId":2289754288}
]}"#;

#[test]
fn bundled_traits_cover_generic_and_concrete_game_2_sigils() {
    let table: serde_json::Value = serde_json::from_str(SIGIL_TRAITS).expect("a table");
    let number = |row: &serde_json::Value, key: &str| row[key].as_u64().expect("a number") as u32;
    let rows: Vec<SigilTraitRow> = table["sigils"]
        .as_array()
        .expect("rows")
        .iter()
        .map(|row| SigilTraitRow {
            sigil_id: number(row, "sigilId"),
            first_trait_id: number(row, "firstTraitId"),
            second_trait_id: number(row, "secondTraitId"),
        })
        .collect();
    let traits = SigilTraits::from_rows(&rows);
    assert_eq!(
        traits.sigil_trait_ids(3_760_801_040),
        Some((1_470_847_760, 3_769_368_062))
    );
    assert_eq!(
        traits.sigil_trait_ids(1_862_062_726),
        Some((1_280_871_463, 1_072_455_552))
    );
    assert_eq!(
        traits.sigil_trait_ids(1_225_749_252),
        Some((612_907_763, 3_468_099_822))
    );
    assert_eq!(
        traits.sigil_trait_ids(3_634_652_401),
        Some((2_069_563_421, 2_597_196_811))
    );
    assert_eq!(
        traits.sigil_trait_ids(3_896_853_593),
        Some((801_700_863, INVALID_ID))
    );
    assert_eq!(traits.sigil_trait_ids(1), None);
}
