use nte_dps_core::monster_images::{
    canonical_monster_image_key, monster_image_keys, monster_image_resource_keys,
    monster_image_stem_candidates, push_trimmed_monster_keys, push_trimmed_monster_stems,
    raw_case_monster_image_stems, raw_monster_image_keys, titlecase_boss_key,
};

fn strings(values: &[&str]) -> Vec<String> {
    values.iter().map(|value| value.to_string()).collect()
}

#[test]
fn canonical_key_drops_extension_case_padding_and_empty_parts() {
    assert_eq!(canonical_monster_image_key("Boss_016_BP.png"), "boss_16_bp");
    assert_eq!(canonical_monster_image_key("Mon__07_.PNG"), "mon_7");
    assert_eq!(canonical_monster_image_key("a.b.c"), "a.b");
    assert_eq!(canonical_monster_image_key("mon_+5"), "mon_5");
    assert_eq!(canonical_monster_image_key("mon_99999999999"), "mon_99999999999");
}

#[test]
fn image_keys_strip_blueprint_suffixes_then_colours() {
    assert_eq!(monster_image_keys("Boss_016_BP.png"), strings(&["boss_16_bp", "boss_16"]));
    assert_eq!(
        monster_image_keys("mon_35_Blue_BP_Abyss"),
        strings(&["mon_35_blue_bp_abyss", "mon_35_blue_bp", "mon_35_blue", "mon_35"])
    );
}

#[test]
fn image_keys_cut_summon_markers_and_trailing_numbers() {
    assert_eq!(
        monster_image_keys("Mon_07_summon_01.png"),
        strings(&["mon_7_summon_1", "mon_7", "mon_7_summon"])
    );
    assert_eq!(raw_monster_image_keys("Mon_07_Red.png"), strings(&["mon_07_red", "mon_07"]));
}

#[test]
fn boss_prefix_is_title_cased_only_at_the_start() {
    assert_eq!(titlecase_boss_key("boss_16"), "Boss_16");
    assert_eq!(titlecase_boss_key("mon_boss_16"), "mon_boss_16");
    assert_eq!(titlecase_boss_key("Boss_16"), "Boss_16");
}

#[test]
fn resource_keys_are_the_lower_stem_then_the_canonical_key() {
    assert_eq!(monster_image_resource_keys("Mon_016.PNG"), strings(&["mon_016", "mon_16"]));
    assert_eq!(monster_image_resource_keys("mon_16"), strings(&["mon_16"]));
}

#[test]
fn raw_case_stems_keep_the_written_case() {
    assert_eq!(raw_case_monster_image_stems("Boss_016_BP.png"), strings(&["Boss_016_BP", "Boss_016"]));
    let mut stems = Vec::new();
    push_trimmed_monster_stems(&mut stems, "Mon_05_Double_01_B");
    assert_eq!(stems, strings(&["Mon_05_Double_01", "Mon_05"]));
    let mut keys = strings(&["mon_5"]);
    push_trimmed_monster_keys(&mut keys, "mon_5_bp");
    assert_eq!(keys, strings(&["mon_5"]));
}

#[test]
fn stem_candidates_try_written_case_then_lower_then_canonical() {
    assert_eq!(
        monster_image_stem_candidates("Boss_016_BP.png"),
        strings(&[
            "Boss_016_BP",
            "Boss_016",
            "boss_016_bp",
            "Boss_016_bp",
            "boss_016",
            "boss_16_bp",
            "Boss_16_bp",
            "boss_16",
            "Boss_16",
        ])
    );
}

#[test]
fn candidate_lists_never_repeat_a_stem() {
    for id in ["Boss_016_BP.png", "mon_35_Blue_BP_Abyss", "Mon_07_summon_01.png", "boss_1_b_b"] {
        for list in [
            monster_image_keys(id),
            monster_image_resource_keys(id),
            raw_case_monster_image_stems(id),
            raw_monster_image_keys(id),
            monster_image_stem_candidates(id),
        ] {
            let mut seen = std::collections::HashSet::new();
            assert!(list.iter().all(|key| seen.insert(key.clone())), "{list:?}");
        }
    }
    assert_eq!(monster_image_keys("Boss_016_BP.png")[0], canonical_monster_image_key("Boss_016_BP.png"));
}
