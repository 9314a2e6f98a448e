use nte_dps_core::abyss_keys::{
    is_supported_abyss_season, is_u32, monster_id_from_class_path, monster_lookup_keys,
    normalize_monster_key, normalize_monster_numeric_key, parse_abyss_attribute_monster_id,
    parse_abyss_group, parse_abyss_pack_id, parse_abyss_route_half,
};

#[test]
fn parses_simple_abyss_pack_id() {
    assert_eq!(
        parse_abyss_pack_id("Abyss_1_9_Boss_016_BP"),
        Some((1, 9, None, None, "Boss_016_BP".to_owned()))
    );
}

#[test]
fn parses_half_and_wave_abyss_pack_id() {
    assert_eq!(
        parse_abyss_pack_id("Abyss_4_6_1_2_mon_03_BP"),
        Some((4, 6, Some(1), Some(2), "mon_03_BP".to_owned()))
    );
}

#[test]
fn parses_summary_abyss_identifiers() {
    assert_eq!(parse_abyss_group("Abyss_Common"), Some(0));
    assert_eq!(parse_abyss_group("Abyss_4"), Some(4));
    assert_eq!(
        parse_abyss_route_half("EAbyssFightStage::FirstHalf"),
        Some(0)
    );
    assert_eq!(
        parse_abyss_route_half("EAbyssFightStage::SecondHalf"),
        Some(1)
    );
    assert_eq!(
        parse_abyss_attribute_monster_id("Abyss_Common_2_mon_35_Blue_BP").as_deref(),
        Some("mon_35_Blue_BP")
    );
    assert_eq!(
        parse_abyss_attribute_monster_id("Abyss_4_6_1_2_mon_03_BP").as_deref(),
        Some("mon_03_BP")
    );
}

#[test]
fn pack_ids_need_the_abyss_prefix_and_a_monster() {
    assert_eq!(parse_abyss_pack_id("Boss_1_9_Boss_016_BP"), None);
    assert_eq!(parse_abyss_pack_id("Abyss_1_9"), None);
    assert_eq!(parse_abyss_pack_id("Abyss_1_9_"), None);
    assert_eq!(parse_abyss_pack_id("Abyss_x_9_mon"), None);
    assert_eq!(
        parse_abyss_pack_id("Abyss_+1_9_mon"),
        Some((1, 9, None, None, "mon".to_owned()))
    );
    assert_eq!(
        parse_abyss_pack_id("Abyss_1_2_99999999999_3_mon"),
        Some((1, 2, None, Some(3), "mon".to_owned()))
    );
}

#[test]
fn groups_and_halves_reject_other_names() {
    assert_eq!(parse_abyss_group("Abyss_"), None);
    assert_eq!(parse_abyss_group("Season_4"), None);
    assert_eq!(parse_abyss_route_half("Middle"), None);
    assert_eq!(parse_abyss_attribute_monster_id("Abyss_x_y_mon"), None);
    assert_eq!(
        parse_abyss_attribute_monster_id("Abyss_4_6_mon_03").as_deref(),
        Some("mon_03")
    );
}

#[test]
fn class_paths_name_the_blueprint_asset() {
    assert_eq!(
        monster_id_from_class_path(
            "/Game/Blueprints/Character/Monster/mon_35/Abyss/mon_35_BP_Blue_Abyss.mon_35_BP_Blue_Abyss_C"
        )
        .as_deref(),
        Some("mon_35_BP_Blue")
    );
    assert_eq!(monster_id_from_class_path("").as_deref(), None);
    assert_eq!(monster_id_from_class_path("_C").as_deref(), None);
}

#[test]
fn monster_keys_normalize_case_padding_and_suffixes() {
    assert_eq!(normalize_monster_key("mon_16_BP_Abyss"), "mon_16_bp");
    assert_eq!(normalize_monster_numeric_key("mon_016_bp"), "mon_16_bp");
    assert_eq!(
        monster_lookup_keys("mon_016_BP_Abyss"),
        vec![
            "mon_016_bp".to_owned(),
            "mon_16_bp".to_owned(),
            "mon_016".to_owned(),
            "mon_16".to_owned()
        ]
    );
    assert_eq!(
        monster_lookup_keys("mon_35_Red_BF"),
        vec!["mon_35_red_bf".to_owned(), "mon_35_red".to_owned()]
    );
}

#[test]
fn seasons_and_digit_runs() {
    assert!(!is_supported_abyss_season(0));
    assert!(is_supported_abyss_season(1));
    assert!(is_supported_abyss_season(7));
    assert!(!is_supported_abyss_season(8));
    assert!(is_u32("007"));
    assert!(!is_u32(""));
    assert!(!is_u32("+7"));
}
