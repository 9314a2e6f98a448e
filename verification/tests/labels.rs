use nte_dps_core::api::response::HelloResult;
use nte_dps_core::labels::{
    abyss_floor_nav_label, abyss_season_label, character_editor_card_hover_text,
    character_editor_primary_name, character_editor_secondary_line, contains_cjk,
    error_action_label, humanize_engine_error, import_error_action, json_string,
    skill_display_name, ErrorAction, SkillNames,
};

#[test]
fn hello_preserves_existing_capability_order_and_appends_equipment() {
    assert_eq!(
        HelloResult::default().capabilities,
        ["capture", "inventory", "battle_summary", "equipment"]
    );
}

#[test]
fn history_skill_display_prefixes_unknown_descriptions_with_character() {
    let english = SkillNames {
        name: "GA_Shinku_UltraSkill".to_owned(),
        category: "技能".to_owned(),
        char_name: "真红".to_owned(),
    };
    assert_eq!(skill_display_name(&english), "真红 · 大招");

    let chinese = SkillNames {
        name: "安魂曲流血伤害L".to_owned(),
        char_name: "安魂曲".to_owned(),
        ..english
    };
    assert_eq!(skill_display_name(&chinese), "安魂曲流血伤害L");
}

#[test]
fn skill_fallback_names_by_keyword_and_category() {
    let row = |name: &str, category: &str, char_name: &str| SkillNames {
        name: name.to_owned(),
        category: category.to_owned(),
        char_name: char_name.to_owned(),
    };
    assert_eq!(skill_display_name(&row("Melee_01", "x", "")), "普攻");
    assert_eq!(skill_display_name(&row("QTE_Hit", "x", "  ")), "环合");
    assert_eq!(skill_display_name(&row("GA_Skill", "x", " 安 ")), "安 · 技能");
    assert_eq!(skill_display_name(&row("GA_Other", "被动", "")), "被动");
    assert_eq!(skill_display_name(&row("GA_Other", "未归类", "")), "技能");
    assert!(contains_cjk("a漢b"));
    assert!(!contains_cjk("abc"));
}

#[test]
fn import_errors_are_humanized_and_offer_a_retry() {
    assert_eq!(
        humanize_engine_error("PCAPNG import failed:  bad block "),
        "PCAPNG 导入失败：bad block"
    );
    assert_eq!(
        humanize_engine_error("json import failed: eof"),
        "抓包 JSON 导入失败：eof"
    );
    assert_eq!(humanize_engine_error("other"), "other");
    assert_eq!(
        import_error_action("bad PCAPNG file"),
        Some(ErrorAction::OpenPcapng)
    );
    assert_eq!(
        import_error_action("bad Json"),
        Some(ErrorAction::OpenCaptureJson)
    );
    assert_eq!(import_error_action("timeout"), None);
    assert_eq!(error_action_label(ErrorAction::OpenConsole), "打开控制台");
}

#[test]
fn abyss_labels_prefer_names_that_are_not_blank() {
    assert_eq!(abyss_season_label(4, Some("晦冥环线")), "晦冥环线");
    assert_eq!(abyss_season_label(4, Some("  ")), "第 4 期");
    assert_eq!(abyss_season_label(12, None), "第 12 期");
    assert_eq!(abyss_floor_nav_label(2, None), "第 2 站");
    assert_eq!(abyss_floor_nav_label(2, Some("第二站")), "第二站");
}

#[test]
fn character_cards_show_names_and_ids() {
    assert_eq!(character_editor_primary_name(" 娜娜莉 ", "Nanally", "1010"), "娜娜莉");
    assert_eq!(character_editor_primary_name("", " Nanally", "1010"), "Nanally");
    assert_eq!(character_editor_primary_name("", "", "1010"), "ID 1010");
    assert_eq!(
        character_editor_secondary_line("娜娜莉", "Nanally", "1010"),
        "ID 1010 · Nanally"
    );
    assert_eq!(character_editor_secondary_line("A", "A", "7"), "ID 7");
    assert_eq!(
        character_editor_card_hover_text("1010", "娜娜莉", "Nanally", " 灵 "),
        "娜娜莉\nID 1010\n英文名 Nanally\n属性 灵"
    );
    assert_eq!(
        character_editor_card_hover_text("3", "", "Bob", ""),
        "Bob\nID 3"
    );
}

#[test]
fn json_string_escapes_quotes_and_controls() {
    assert_eq!(json_string("a\"b\\c"), "\"a\\\"b\\\\c\"");
    assert_eq!(json_string("x\ny\t"), "\"x\\ny\\t\"");
    assert_eq!(json_string("\u{1}\u{7f}"), "\"\\u0001\\u007f\"");
    assert_eq!(json_string("名"), "\"名\"");
}
