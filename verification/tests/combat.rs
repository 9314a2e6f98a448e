use std::collections::{HashMap, VecDeque};

use nte_dps_core::combat::{
    adjusted_cached_index, damage_digit_key_for_hit, damage_digit_resource_path,
    hit_detail_filter_available,
    follow_up_damage_digit_key_for_hit, hit_type_label, is_party_member_row,
    is_qte_follow_up_damage_type, mixed_damage_digit_key, reaction_text_key_for_hit,
    reaction_text_key_from_trigger_attack_type, CharacterInfo, Hit, HitDetailFilter,
};

fn hit_with_direction(direction: &str) -> Hit {
    Hit {
        char_id: 1,
        char_name: "角色".to_owned(),
        char_known: true,
        direction: direction.to_owned(),
        damage_name: Some("招式".to_owned()),
        attack_type: None,
        damage_attribute: None,
        follow_up_attack_type: None,
        follow_up_damage_attribute: None,
    }
}

#[test]
fn cached_index_tracks_front_trimming_during_deferred_refresh() {
    assert_eq!(
        adjusted_cached_index(45_000, 50_000, 50_000, 20),
        Some(44_980)
    );
    assert_eq!(adjusted_cached_index(10, 50_000, 50_000, 20), None);
    assert_eq!(
        adjusted_cached_index(9_000, 10_000, 10_020, 20),
        Some(9_000)
    );
}

#[test]
fn unknown_hit_uses_candidate_output_label() {
    let outgoing_hit = hit_with_direction("outgoing");
    let incoming_hit = hit_with_direction("incoming");
    let unknown_hit = hit_with_direction("unknown");
    let outgoing = hit_type_label(&outgoing_hit);
    let incoming = hit_type_label(&incoming_hit);
    let unknown = hit_type_label(&unknown_hit);
    assert!(!outgoing.is_empty());
    assert!(!incoming.is_empty());
    assert!(!unknown.is_empty());
    assert_ne!(unknown, incoming);
}

#[test]
fn reaction_text_key_only_marks_reaction_trigger_hits() {
    assert_eq!(
        reaction_text_key_from_trigger_attack_type("环合·覆纹"),
        Some(2)
    );
    assert_eq!(reaction_text_key_from_trigger_attack_type("覆纹"), None);
    assert_eq!(reaction_text_key_from_trigger_attack_type("创生花"), None);
    assert_eq!(
        reaction_text_key_from_trigger_attack_type("环合·黯星"),
        Some(3)
    );
    assert_eq!(
        reaction_text_key_from_trigger_attack_type("环合·浊燃"),
        Some(4)
    );
    assert_eq!(
        reaction_text_key_from_trigger_attack_type("环合·浸染"),
        Some(5)
    );
    assert_eq!(
        reaction_text_key_from_trigger_attack_type("环合·延滞"),
        Some(6)
    );
    assert_eq!(
        reaction_text_key_from_trigger_attack_type("环合·盈蓄"),
        Some(7)
    );
    assert_eq!(
        reaction_text_key_from_trigger_attack_type("环合·失谐"),
        Some(8)
    );

    let mut hit = hit_with_direction("outgoing");
    hit.attack_type = Some("创生花".to_owned());
    assert_eq!(reaction_text_key_for_hit(&hit), None);

    hit.attack_type = Some("环合·覆纹".to_owned());
    assert_eq!(reaction_text_key_for_hit(&hit), Some(2));
}

#[test]
fn qte_type_filter_matches_only_that_attack_type() {
    let filter = HitDetailFilter::QteType("覆纹".to_owned());
    let mut matching = hit_with_direction("outgoing");
    matching.attack_type = Some("覆纹".to_owned());
    let mut different_qte = hit_with_direction("outgoing");
    different_qte.attack_type = Some("创生花".to_owned());
    let mut incoming = hit_with_direction("incoming");
    incoming.attack_type = Some("覆纹".to_owned());

    assert!(filter.matches(&matching));
    assert!(!filter.matches(&different_qte));
    assert!(!filter.matches(&incoming));
}

#[test]
fn qte_type_filter_accepts_merged_follow_up_type() {
    let mut source = hit_with_direction("outgoing");
    source.attack_type = Some("Q技能".to_owned());
    source.follow_up_attack_type = Some("覆纹".to_owned());
    assert!(HitDetailFilter::QteType("覆纹".to_owned()).matches(&source));
    assert!(HitDetailFilter::All.matches(&source));
    assert!(HitDetailFilter::Outgoing.matches(&source));
    assert!(!HitDetailFilter::Incoming.matches(&source));
}

#[test]
fn damage_digit_key_prefers_special_damage_types() {
    let characters = HashMap::from([(
        1,
        CharacterInfo {
            name_zh: "角色".to_owned(),
            name_en: String::new(),
            color: None,
            avatar: None,
            attribute: Some("灵".to_owned()),
        },
    )]);
    let mut hit = hit_with_direction("outgoing");
    assert_eq!(damage_digit_key_for_hit(&hit, &characters), Some("灵"));

    hit.attack_type = Some("倾陷伤害".to_owned());
    assert_eq!(damage_digit_key_for_hit(&hit, &characters), Some("真实"));

    hit.attack_type = Some("覆纹".to_owned());
    hit.damage_attribute = Some("咒".to_owned());
    assert_eq!(
        damage_digit_key_for_hit(&hit, &characters),
        Some("lingzhou_L")
    );

    hit.attack_type = Some("创生花".to_owned());
    hit.damage_attribute = Some("光".to_owned());
    assert_eq!(
        damage_digit_key_for_hit(&hit, &characters),
        Some("Guangling_G")
    );
    hit.attack_type = Some("载具伤害".to_owned());
    hit.damage_attribute = Some("物理".to_owned());
    assert_eq!(damage_digit_key_for_hit(&hit, &characters), Some("物理"));

    hit.direction = "incoming".to_owned();
    hit.attack_type = Some("覆纹".to_owned());
    hit.damage_attribute = Some("咒".to_owned());
    assert_eq!(damage_digit_key_for_hit(&hit, &characters), Some("物理"));

    hit.direction = "outgoing".to_owned();
    hit.follow_up_attack_type = Some("覆纹".to_owned());
    hit.follow_up_damage_attribute = Some("咒".to_owned());
    assert_eq!(follow_up_damage_digit_key_for_hit(&hit), Some("lingzhou_L"));
}

#[test]
fn reaction_burst_digit_key_locks_to_trigger_side_series() {
    for attribute in [None, Some("光"), Some("灵")] {
        assert_eq!(
            mixed_damage_digit_key("创生花", attribute),
            Some("Guangling_G")
        );
    }
    for attribute in [None, Some("灵"), Some("咒")] {
        assert_eq!(
            mixed_damage_digit_key("覆纹", attribute),
            Some("lingzhou_L")
        );
    }
    for attribute in [None, Some("暗"), Some("魂")] {
        assert_eq!(mixed_damage_digit_key("黯星", attribute), Some("Anhun_A"));
    }
    for attribute in [None, Some("暗"), Some("咒")] {
        assert_eq!(mixed_damage_digit_key("浊燃", attribute), Some("Zhouan_A"));
    }
}

#[test]
fn reaction_trigger_hit_digit_key_uses_caster_attribute() {
    for trigger in ["环合·创生", "环合·黯星", "环合·浊燃", "环合·覆纹"] {
        assert_eq!(mixed_damage_digit_key(trigger, Some("灵")), None);
    }
    let characters = HashMap::from([(
        1010,
        CharacterInfo {
            name_zh: "娜娜莉".to_owned(),
            name_en: String::new(),
            color: None,
            avatar: None,
            attribute: Some("灵".to_owned()),
        },
    )]);
    let mut trigger_hit = hit_with_direction("outgoing");
    trigger_hit.char_id = 1010;
    trigger_hit.attack_type = Some("环合·创生".to_owned());
    assert_eq!(
        damage_digit_key_for_hit(&trigger_hit, &characters),
        Some("灵")
    );
}

#[test]
fn attribute_dependent_reactions_pick_the_source_side() {
    assert_eq!(mixed_damage_digit_key("延滞", Some("光")), Some("Guangxiang_G"));
    assert_eq!(mixed_damage_digit_key("延滞", Some("相")), Some("Guangxiang_X"));
    assert_eq!(mixed_damage_digit_key("延滞", None), None);
    assert_eq!(mixed_damage_digit_key("魂相", Some("魂")), Some("Hunxiang_H"));
    assert_eq!(mixed_damage_digit_key("浸染", Some("相")), Some("Hunxiang_X"));
    assert_eq!(mixed_damage_digit_key("盈蓄", Some("光")), Some("Guangling_G"));
    assert_eq!(mixed_damage_digit_key("盈蓄", Some("灵")), None);
    assert_eq!(mixed_damage_digit_key("失谐", Some("暗")), Some("Anhun_A"));
    assert_eq!(mixed_damage_digit_key("失谐", Some("咒")), None);
    assert_eq!(mixed_damage_digit_key("普攻", Some("光")), None);
}

#[test]
fn party_member_rows_hide_qte_follow_up_pseudo_characters() {
    let mut real_hit = hit_with_direction("outgoing");
    real_hit.char_id = 1;
    real_hit.attack_type = Some("普攻".to_owned());
    let mut follow_up = hit_with_direction("outgoing");
    follow_up.char_id = 999_999;
    follow_up.char_known = false;
    follow_up.attack_type = Some("覆纹".to_owned());

    let hits = VecDeque::from([real_hit, follow_up]);

    assert!(is_party_member_row(1, &hits));
    assert!(!is_party_member_row(999_999, &hits));
}

#[test]
fn follow_up_types_are_the_eight_reactions() {
    for name in ["创生花", "覆纹", "延滞", "黯星", "浊燃", "浸染", "盈蓄", "失谐"] {
        assert!(is_qte_follow_up_damage_type(name));
    }
    assert!(!is_qte_follow_up_damage_type("环合·覆纹"));
    assert!(!is_qte_follow_up_damage_type("创生"));
}

#[test]
fn damage_digit_paths_follow_the_font_directory() {
    assert_eq!(
        damage_digit_resource_path("guang", 7),
        "res/images/font/tiaozi1/guang_7.png"
    );
    assert_eq!(
        damage_digit_resource_path("Anhun_A", 10),
        "res/images/font/tiaozi1/Anhun_A_10.png"
    );
}

#[test]
fn hit_type_label_falls_back_to_attack_type_then_placeholder() {
    let mut hit = hit_with_direction("outgoing");
    assert_eq!(hit_type_label(&hit), "招式");
    hit.damage_name = None;
    hit.attack_type = Some("普攻".to_owned());
    assert_eq!(hit_type_label(&hit), "普攻");
    hit.attack_type = None;
    assert_eq!(hit_type_label(&hit), "未知招式");
    hit.direction = "incoming".to_owned();
    assert_eq!(hit_type_label(&hit), "受击");
    hit.direction = "unknown".to_owned();
    assert_eq!(hit_type_label(&hit), "候选输出");
}

#[test]
fn follow_up_type_filters_need_a_summary_of_that_type() {
    let present = vec!["创生花".to_owned(), "环合·覆纹".to_owned()];
    assert!(hit_detail_filter_available(&HitDetailFilter::QteType("创生花".to_owned()), &present));
    assert!(!hit_detail_filter_available(&HitDetailFilter::QteType("环合·黯星".to_owned()), &present));
    assert!(hit_detail_filter_available(&HitDetailFilter::All, &Vec::new()));
    assert!(hit_detail_filter_available(&HitDetailFilter::Incoming, &Vec::new()));
}
