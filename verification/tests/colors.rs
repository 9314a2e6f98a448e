use std::collections::HashMap;

use nte_dps_core::colors::{
    character_color, deterministic_fallback_index, monster_palette_index, parse_hex_color,
    CharacterColor,
};
use nte_dps_core::combat::CharacterInfo;

fn info(color: Option<&str>) -> CharacterInfo {
    CharacterInfo {
        name_zh: "娜娜莉".to_owned(),
        name_en: String::new(),
        color: color.map(str::to_owned),
        avatar: None,
        attribute: None,
    }
}

#[test]
fn hex_colors_need_six_bytes_of_hex_pairs() {
    assert_eq!(parse_hex_color("#123456"), Some((0x12, 0x34, 0x56)));
    assert_eq!(parse_hex_color("FF8000"), Some((255, 128, 0)));
    assert_eq!(parse_hex_color("#ff8000"), Some((255, 128, 0)));
    assert_eq!(parse_hex_color("+f+f+f"), Some((15, 15, 15)));
    assert_eq!(parse_hex_color("#fff"), None);
    assert_eq!(parse_hex_color("12345g"), None);
    assert_eq!(parse_hex_color("-12345"), None);
    assert_eq!(parse_hex_color("\u{e9}1234"), None);
    assert_eq!(parse_hex_color("##123456"), None);
}

#[test]
fn monster_palette_positions_hash_the_id_bytes() {
    assert_eq!(monster_palette_index("mon_35_Blue_BP"), 1);
    assert_eq!(monster_palette_index("Boss_016_BP"), 2);
    assert_eq!(monster_palette_index(""), 0);
    assert_eq!(monster_palette_index("罐头"), 3);
}

#[test]
fn character_fallback_colors_hash_id_and_position() {
    assert_eq!(deterministic_fallback_index(1004, 0), 10);
    assert_eq!(deterministic_fallback_index(1020, 3), 9);
    assert_eq!(deterministic_fallback_index(0, 0), 1);
}

#[test]
fn character_table_color_wins_over_fallback() {
    let mut characters = HashMap::new();
    characters.insert(1010, info(Some("#123456")));
    characters.insert(1004, info(Some("not a colour")));
    characters.insert(1020, info(None));
    assert_eq!(character_color(1010, &characters, 0), CharacterColor::Table(0x12, 0x34, 0x56));
    assert_eq!(character_color(1004, &characters, 0), CharacterColor::Fallback(10));
    assert_eq!(character_color(1020, &characters, 3), CharacterColor::Fallback(9));
    assert_eq!(character_color(7, &characters, 0), CharacterColor::Fallback(deterministic_fallback_index(7, 0)));
}
