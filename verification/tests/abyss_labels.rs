use nte_dps_core::abyss_data::{AbyssFloor, AbyssMonsterEntry};
use nte_dps_core::labels::{
    abyss_floor_label, confirmation_content, damage_number_digits, file_display_name,
    grouped_number, monster_icon_text, monster_line_label, monster_wave_label, ConfirmationAction,
};

fn entry(half: Option<u32>, wave: Option<u32>) -> AbyssMonsterEntry {
    AbyssMonsterEntry {
        pack_id: "p".to_owned(),
        attribute_id: "a".to_owned(),
        monster_pool_id: None,
        monster_id: "m".to_owned(),
        name: "n".to_owned(),
        count: 1,
        level: None,
        half,
        wave,
        is_boss: false,
    }
}

#[test]
fn floor_labels_prefer_a_name_that_is_not_blank() {
    let mut floor = AbyssFloor {
        season: 4,
        season_name: None,
        floor: 6,
        name: Some("第二站".to_owned()),
        monsters: Vec::new(),
    };
    assert_eq!(abyss_floor_label(&floor), "第二站");
    floor.name = Some("  ".to_owned());
    assert_eq!(abyss_floor_label(&floor), "第 6 站");
    floor.name = None;
    assert_eq!(abyss_floor_label(&floor), "第 6 站");
}

#[test]
fn monster_labels_name_the_line_and_wave() {
    assert_eq!(monster_wave_label(&entry(None, Some(3))), "W3");
    assert_eq!(monster_wave_label(&entry(None, None)), "-");
    assert_eq!(monster_line_label(&entry(Some(0), Some(2))), "上行线 · 第 2 波");
    assert_eq!(monster_line_label(&entry(Some(1), None)), "下行线");
    assert_eq!(monster_line_label(&entry(Some(7), None)), "线路 7");
    assert_eq!(monster_line_label(&entry(None, Some(1))), "第 1 波");
    assert_eq!(monster_line_label(&entry(None, None)), "整层配置");
}

#[test]
fn confirmations_name_the_file_or_record() {
    assert_eq!(file_display_name(None), "所选文件");
    assert_eq!(file_display_name(Some("a.pcapng")), "a.pcapng");
    let (title, message, confirm) =
        confirmation_content(&ConfirmationAction::ImportPcapng(Some("a.pcapng".to_owned())));
    assert_eq!(title, "确认导入");
    assert_eq!(message, "导入 a.pcapng 会停止当前任务并清空现有统计。");
    assert_eq!(confirm, "导入");
    let (_, message, _) = confirmation_content(&ConfirmationAction::ReloadEncryptedIni(None));
    assert_eq!(message, "当前 INI 有未保存修改，重新载入 所选文件 后这些修改会丢失。");
    let (title, message, confirm) =
        confirmation_content(&ConfirmationAction::DeleteHistory("r-1".to_owned()));
    assert_eq!((title, message.as_str(), confirm), ("确认删除", "删除历史摘要 r-1 后不可撤销。", "删除"));
    let (title, _, confirm) = confirmation_content(&ConfirmationAction::StartLive);
    assert_eq!((title, confirm), ("确认开始", "开始"));
}

#[test]
fn numbers_are_grouped_by_thousands() {
    assert_eq!(grouped_number(0), "0");
    assert_eq!(grouped_number(999), "999");
    assert_eq!(grouped_number(1000), "1,000");
    assert_eq!(grouped_number(77136), "77,136");
    assert_eq!(grouped_number(1928356), "1,928,356");
    assert_eq!(grouped_number(-1234), "-1,234");
    assert_eq!(grouped_number(i64::MAX), "9,223,372,036,854,775,807");
}

#[test]
fn monster_icons_show_the_first_visible_character() {
    let mut monster = entry(None, None);
    monster.name = "  罐头锡兵".to_owned();
    assert_eq!(monster_icon_text(&monster), "罐");
    monster.name = "\u{3000}\t".to_owned();
    assert_eq!(monster_icon_text(&monster), "?");
    monster.name = String::new();
    assert_eq!(monster_icon_text(&monster), "?");
}

#[test]
fn damage_digits_are_plain() {
    assert_eq!(damage_number_digits(77136), "77136");
    assert_eq!(damage_number_digits(0), "0");
    assert_eq!(damage_number_digits(-42), "-42");
    assert_eq!(damage_number_digits(i64::MIN), "-9223372036854775808");
}
