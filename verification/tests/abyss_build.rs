use std::collections::HashMap;

use nte_dps_core::abyss_build::{
    build_dataset, build_dataset_from_pack_ids, build_dataset_from_summary, build_static_index,
    build_dataset_from_tables, collect_localized_abyss_season_names, compact_dataset_from_document,
    compact_dataset_from_text, data_table_rows, data_table_rows_from_text, line_waves, lookup_static_monster,
    parse_abyss_season_names, parse_plain_abyss_season_names, season_names_from_text,
    static_monster_lookup_keys, summary_rows_from_text, summary_rows_of, usable_compact_dataset, FloorGroup,
};
use nte_dps_core::abyss_data::{AbyssMonsterDataset, AbyssMonsterEntry};
use nte_dps_core::json::{JsonNumber, JsonValue};

fn to_json(value: serde_json::Value) -> JsonValue {
    match value {
        serde_json::Value::Null => JsonValue::Null,
        serde_json::Value::Bool(b) => JsonValue::Bool(b),
        serde_json::Value::Number(n) => JsonValue::Number(if let Some(u) = n.as_u64() {
            JsonNumber::PosInt(u)
        } else if let Some(i) = n.as_i64() {
            JsonNumber::NegInt(i)
        } else {
            JsonNumber::Float
        }),
        serde_json::Value::String(s) => JsonValue::String(s),
        serde_json::Value::Array(items) => {
            JsonValue::Array(items.into_iter().map(to_json).collect())
        }
        serde_json::Value::Object(map) => JsonValue::Object(
            map.into_iter()
                .map(|(key, value)| (key, to_json(value)))
                .collect(),
        ),
    }
}

fn json(text: &str) -> JsonValue {
    to_json(serde_json::from_str(text).expect("fixture should be JSON"))
}

fn season_name(names: &HashMap<u32, String>, season: u32) -> Option<&str> {
    names.get(&season).map(String::as_str)
}

fn entry(pack_id: &str, name: &str, half: Option<u32>, wave: Option<u32>) -> AbyssMonsterEntry {
    AbyssMonsterEntry {
        pack_id: pack_id.to_owned(),
        attribute_id: pack_id.to_owned(),
        monster_pool_id: None,
        monster_id: "m".to_owned(),
        name: name.to_owned(),
        count: 1,
        level: None,
        half,
        wave,
        is_boss: false,
    }
}

#[test]
fn builds_summary_dataset_with_counts_and_stats() {
    let summary_rows = vec![json(
        r#"{
            "abyss": "Abyss_4",
            "level_id": 2,
            "level_name": "第二站",
            "route": "EAbyssFightStage::FirstHalf",
            "wave": 1,
            "monster_pool_id": "Abyss_4_2_0_1",
            "monsters": [
                {
                    "name": "罐头锡兵",
                    "class": "/Game/Blueprints/Character/Monster/mon_35/Abyss/mon_35_BP_Blue_Abyss.mon_35_BP_Blue_Abyss_C",
                    "count": 2,
                    "level": 46,
                    "attribute_id": "Abyss_4_2_0_1_mon_35_Blue_BP",
                    "element_types": ["CHARACTER_ELEMENT_TYPE_COSMOS"],
                    "is_boss": false,
                    "spawn_points": ["MonPoint_01", "MonPoint_02"]
                }
            ]
        }"#,
    )];
    let pack_rows: serde_json::Value = serde_json::from_str(
        r#"{"Abyss_4_2_0_1_mon_35_Blue_BP": {"HPMaxBase": 1000.0, "AttackBase": 50.0}}"#,
    )
    .unwrap();
    let static_rows = vec![(
        "mon_35_BP_Blue_Abyss".to_owned(),
        json(r#"{"Comment": "蓝锡兵", "Tags": ["mon_35_Blue_BP_Abyss"]}"#),
    )];
    let static_index = build_static_index(&static_rows);
    let dataset = build_dataset_from_summary(&summary_rows, &static_index, &HashMap::new());
    let floor = dataset.floor(4, 2).expect("summary floor should exist");
    assert_eq!(floor.name.as_deref(), Some("第二站"));
    assert_eq!(floor.monster_count(), 2);
    assert_eq!(floor.wave_count(), 1);

    let monster = floor.monsters.first().expect("summary monster should exist");
    assert_eq!(monster.count, 2);
    assert_eq!(monster.level, Some(46));
    assert_eq!(monster.half, Some(0));
    assert_eq!(monster.wave, Some(1));
    assert_eq!(monster.monster_id, "mon_35_Blue_BP");
    assert_eq!(pack_rows[&monster.attribute_id]["HPMaxBase"].as_f64(), Some(1000.0));
}

#[test]
fn summary_monsters_of_a_pool_get_positional_pack_ids() {
    let rows = vec![
        json(
            r#"{"abyss": "Abyss_4", "level_id": 2, "level_name": "  ",
                "route": "EAbyssFightStage::SecondHalf", "monster_pool_id": "P",
                "monsters": [{"name": "x"}, {"attribute_id": "Abyss_4_2_mon_7", "name": " "}]}"#,
        ),
        json(r#"{"abyss": "Abyss_4", "level_id": 2, "level_name": "第二站", "monsters": [{"attribute_id": "a_b", "count": 0}]}"#),
        json(r#"{"abyss": "Abyss_9", "level_id": 1, "monsters": [{"attribute_id": "z"}]}"#),
        json(r#"{"abyss": "Other", "level_id": 1, "monsters": [{"attribute_id": "z"}]}"#),
    ];
    let statics = build_static_index(&vec![("mon_7".to_owned(), json(r#"{"Comment": "七号"}"#))]);
    let dataset = build_dataset_from_summary(&rows, &statics, &HashMap::from([(4, "晦冥环线".to_owned())]));
    assert_eq!(dataset.seasons.len(), 1);
    assert_eq!(dataset.seasons[0].name.as_deref(), Some("晦冥环线"));
    let floor = dataset.floor(4, 2).unwrap();
    assert_eq!(floor.name.as_deref(), Some("第二站"));
    assert_eq!(floor.season_name.as_deref(), Some("晦冥环线"));
    assert_eq!(floor.monsters.len(), 2);
    // no half sorts before the second half
    assert_eq!(floor.monsters[0].pack_id, "a_b");
    assert_eq!(floor.monsters[0].monster_id, "a_b");
    assert_eq!(floor.monsters[0].count, 1);
    assert_eq!(floor.monsters[1].pack_id, "P:1:-:Abyss_4_2_mon_7:1");
    assert_eq!(floor.monsters[1].monster_id, "mon_7");
    assert_eq!(floor.monsters[1].name, "七号");
    assert_eq!(floor.monsters[1].monster_pool_id.as_deref(), Some("P"));
}

#[test]
fn loads_compact_abyss_dataset_shape() {
    let text = r#"{
        "seasons": [{
            "season": 4,
            "name": "测试赛季",
            "floors": [{
                "floor": 2,
                "name": "第二站",
                "monsters": [{
                    "pack_id": "Abyss_4_2_0_1:0:1:Abyss_4_2_0_1_mon_35_Blue_BP:0",
                    "attribute_id": "Abyss_4_2_0_1_mon_35_Blue_BP",
                    "monster_pool_id": "Abyss_4_2_0_1",
                    "monster_id": "mon_35_Blue_BP",
                    "name": "罐头锡兵",
                    "count": 2,
                    "level": 46,
                    "half": 0,
                    "wave": 1,
                    "stats": {
                        "HPMaxBase": 1000.0,
                        "AttackBase": 50.0
                    }
                }]
            }]
        }]
    }"#;
    let document: serde_json::Value = serde_json::from_str(text).unwrap();
    let dataset =
        compact_dataset_from_document(&to_json(document.clone())).expect("compact abyss should load");
    let floor = dataset.floor(4, 2).expect("compact floor should exist");
    let monster = floor.monsters.first().expect("compact monster should exist");

    assert_eq!(floor.name.as_deref(), Some("第二站"));
    assert_eq!(monster.monster_id, "mon_35_Blue_BP");
    assert_eq!(monster.count, 2);
    let stats = &document["seasons"][0]["floors"][0]["monsters"][0]["stats"];
    assert_eq!(stats["HPMaxBase"].as_f64(), Some(1000.0));
    assert_eq!(stats["AttackBase"].as_f64(), Some(50.0));
}

#[test]
fn compact_documents_skip_incomplete_rows_and_sort() {
    assert!(compact_dataset_from_document(&json(r#"{"other": []}"#)).is_none());
    let dataset = compact_dataset_from_document(&json(
        r#"{"seasons": [
            {"season": 5, "floors": [
                {"floor": 3, "monsters": [
                    {"pack_id": "b", "monster_id": "m2", "wave": 2},
                    {"pack_id": "a", "monster_id": "m1", "wave": 1, "name": " ", "count": 0},
                    {"monster_id": "no pack"}
                ]},
                {"floor": 1, "monsters": []},
                {"floor": 2}
            ]},
            {"season": 4, "floors": []},
            {"season": 9, "floors": []},
            {"season": 6}
        ]}"#,
    ))
    .unwrap();
    let seasons: Vec<u32> = dataset.seasons.iter().map(|season| season.season).collect();
    assert_eq!(seasons, vec![4, 5]);
    let floors: Vec<u32> = dataset.seasons[1].floors.iter().map(|floor| floor.floor).collect();
    assert_eq!(floors, vec![1, 3]);
    let monsters = &dataset.floor(5, 3).unwrap().monsters;
    assert_eq!(monsters.len(), 2);
    assert_eq!(monsters[0].pack_id, "a");
    assert_eq!(monsters[0].name, "m1");
    assert_eq!(monsters[0].attribute_id, "a");
    assert_eq!(monsters[0].count, 1);
    assert_eq!(monsters[1].pack_id, "b");
}

#[test]
fn static_lookup_matches_tags_and_numeric_padding() {
    let rows = vec![(
        "mon_016_BP_Abyss".to_owned(),
        json(
            r#"{
                "Comment": "贩卖机",
                "TextName": {"CultureInvariantString": null},
                "Tags": ["mon_16_BP_Abyss"]
            }"#,
        ),
    )];
    let index = build_static_index(&rows);

    assert_eq!(
        lookup_static_monster(&index, "mon_16_BP").and_then(|info| info.name.as_deref()),
        Some("贩卖机")
    );
}

#[test]
fn static_lookup_matches_bp_and_bf_suffix_variants() {
    let rows = vec![(
        "mon_35_BP_Red_Abyss".to_owned(),
        json(
            r#"{
                "Comment": "红锡兵(近战)",
                "Tags": ["mon_35_Red_BP_Abyss"]
            }"#,
        ),
    )];
    let index = build_static_index(&rows);

    assert_eq!(
        lookup_static_monster(&index, "mon_35_Red_BF").and_then(|info| info.name.as_deref()),
        Some("红锡兵(近战)")
    );
}

#[test]
fn static_index_keeps_the_first_row_for_a_key() {
    let rows = vec![
        ("mon_1".to_owned(), json(r#"{"Comment": " ", "TextName": {"CultureInvariantString": "一号"}}"#)),
        ("Mon_1_Abyss".to_owned(), json(r#"{"Comment": "别名"}"#)),
        ("mon_2".to_owned(), json(r#"{"Tags": ["mon_3", 7]}"#)),
    ];
    let index = build_static_index(&rows);
    assert_eq!(lookup_static_monster(&index, "mon_1").and_then(|info| info.name.as_deref()), Some("一号"));
    assert!(lookup_static_monster(&index, "mon_3").is_some_and(|info| info.name.is_none()));
    assert!(lookup_static_monster(&index, "mon_4").is_none());
    assert_eq!(
        static_monster_lookup_keys("Mon_02_BP", &json(r#"{"Tags": ["x"]}"#)),
        vec!["mon_02_bp", "mon_2_bp", "mon_02", "mon_2", "x"]
    );
}

#[test]
fn parses_localized_abyss_season_names() {
    let names = parse_abyss_season_names(&json(
        r#"{
            "Abyss_4_name": "晦冥环线",
            "Abyss_5_name": "ST_AbyssBattle,Abyss_5_name",
            "Buff_Abyss_Phase_004_name": "无星之夜"
        }"#,
    ));

    assert_eq!(season_name(&names, 4), Some("晦冥环线"));
    assert!(season_name(&names, 5).is_none());
}

#[test]
fn parses_plain_abyss_season_names_resource() {
    let names = parse_abyss_season_names(&json(r#"{"4": "晦冥环线", "5": "晦冥环线"}"#));

    assert_eq!(season_name(&names, 4), Some("晦冥环线"));
    assert_eq!(season_name(&names, 5), Some("晦冥环线"));
}

#[test]
fn localized_names_are_found_at_any_depth_and_replace_plain_ones() {
    let document = json(r#"{"3": " 旧名 ", "ST": {"Abyss_3_name": "新名", "inner": {"Abyss_+6_name": "六"}}}"#);
    assert_eq!(parse_plain_abyss_season_names(&document), HashMap::from([(3, "旧名".to_owned())]));
    let names = parse_abyss_season_names(&document);
    assert_eq!(season_name(&names, 3), Some("新名"));
    assert_eq!(season_name(&names, 6), Some("六"));
    let mut untouched = HashMap::from([(1, "一".to_owned())]);
    collect_localized_abyss_season_names(&json(r#"["Abyss_2_name"]"#), &mut untouched);
    assert_eq!(untouched, HashMap::from([(1, "一".to_owned())]));
}

#[test]
fn pack_ids_are_filed_under_their_floors() {
    let statics = build_static_index(&vec![("mon_03".to_owned(), json(r#"{"Comment": "三号"}"#))]);
    let dataset = build_dataset_from_pack_ids(
        &vec![
            "Abyss_4_6_1_2_mon_03_BP".to_owned(),
            "Abyss_4_6_Boss_016_BP".to_owned(),
            "Abyss_8_1_mon_1".to_owned(),
            "Other_1".to_owned(),
        ],
        &statics,
        &HashMap::new(),
    );
    assert_eq!(dataset.seasons.len(), 1);
    let floor = dataset.floor(4, 6).unwrap();
    assert_eq!(floor.name, None);
    assert_eq!(floor.monsters.len(), 2);
    assert_eq!(floor.monsters[0].pack_id, "Abyss_4_6_Boss_016_BP");
    assert_eq!(floor.monsters[0].name, "Boss_016_BP");
    assert_eq!(floor.monsters[1].name, "三号");
    assert_eq!(floor.monsters[1].half, Some(1));
    assert_eq!(floor.monsters[1].wave, Some(2));
}

#[test]
fn floor_groups_are_sorted_into_seasons() {
    let groups = vec![
        FloorGroup { season: 5, floor: 2, monsters: vec![entry("b", "b", Some(1), None), entry("a", "a", Some(0), None)] },
        FloorGroup { season: 4, floor: 9, monsters: Vec::new() },
        FloorGroup { season: 5, floor: 1, monsters: Vec::new() },
        FloorGroup { season: 0, floor: 1, monsters: Vec::new() },
    ];
    let dataset = build_dataset(
        groups,
        &vec![(5, 2, "二".to_owned()), (5, 2, "后来".to_owned())],
        &HashMap::from([(5, "五".to_owned())]),
    );
    let seasons: Vec<u32> = dataset.seasons.iter().map(|season| season.season).collect();
    assert_eq!(seasons, vec![4, 5]);
    assert_eq!(dataset.seasons[1].name.as_deref(), Some("五"));
    assert_eq!(dataset.seasons[0].name, None);
    let floors: Vec<u32> = dataset.seasons[1].floors.iter().map(|floor| floor.floor).collect();
    assert_eq!(floors, vec![1, 2]);
    let floor = dataset.floor(5, 2).unwrap();
    assert_eq!(floor.name.as_deref(), Some("二"));
    assert_eq!(floor.monsters[0].pack_id, "a");
}

#[test]
fn document_shapes_give_their_rows() {
    let table = json(r#"[{"Rows": {"mon_1": {"Comment": "一"}}}, {"Rows": {}}]"#);
    let rows = data_table_rows(&table).expect("rows of the first entry");
    assert_eq!(rows.len(), 1);
    assert_eq!(rows[0].0, "mon_1");
    assert!(data_table_rows(&json(r#"[]"#)).is_none());
    assert!(data_table_rows(&json(r#"[{"Rows": []}]"#)).is_none());
    assert!(data_table_rows(&json(r#"{"Rows": {}}"#)).is_none());
    assert_eq!(summary_rows_of(&json(r#"{"rows": [1, 2]}"#)).map(Vec::len), Some(2));
    assert!(summary_rows_of(&json(r#"{"rows": {}}"#)).is_none());
}

#[test]
fn monsters_of_equal_rank_keep_their_order() {
    let mut first = entry("p", "n", Some(0), Some(1));
    first.monster_id = "first".to_owned();
    let mut second = entry("p", "n", Some(0), Some(1));
    second.monster_id = "second".to_owned();
    let early = entry("o", "n", Some(0), Some(1));
    let dataset = build_dataset(
        vec![FloorGroup { season: 4, floor: 1, monsters: vec![first, early, second] }],
        &Vec::new(),
        &HashMap::new(),
    );
    let ids: Vec<&str> = dataset.seasons[0].floors[0]
        .monsters
        .iter()
        .map(|monster| monster.monster_id.as_str())
        .collect();
    assert_eq!(ids, vec!["m", "first", "second"]);
}

#[test]
fn compact_dataset_text_is_parsed_and_read() {
    let dataset = compact_dataset_from_text(
        r#"{"seasons": [{"season": 7, "name": "七", "floors": [{"floor": 1, "monsters": [
            {"pack_id": "p", "monster_id": "m", "count": 3, "wave": 2}
        ]}]}]}"#,
    )
    .expect("compact text should load");
    assert_eq!(dataset.seasons.len(), 1);
    assert_eq!(dataset.seasons[0].name.as_deref(), Some("七"));
    let monster = &dataset.floor(7, 1).unwrap().monsters[0];
    assert_eq!(monster.pack_id, "p");
    assert_eq!(monster.count, 3);
    assert_eq!(monster.wave, Some(2));
    assert!(compact_dataset_from_text("{").is_none());
    assert!(compact_dataset_from_text("not json").is_none());
    assert!(compact_dataset_from_text(r#"{"other": []}"#).is_none());
    let empty = compact_dataset_from_text(r#"{"seasons": []}"#).expect("a seasons array loads");
    assert!(empty.seasons.is_empty());
}

#[test]
fn table_and_summary_texts_give_their_rows() {
    let rows = data_table_rows_from_text(r#"[{"Rows": {"mon_1": {"Comment": "一"}, "mon_2": {}}}, {"Rows": {}}]"#)
        .expect("rows of the first entry");
    assert_eq!(rows.len(), 2);
    assert_eq!(rows[0].0, "mon_1");
    assert_eq!(rows[1].0, "mon_2");
    assert!(data_table_rows_from_text("[").is_none());
    assert!(data_table_rows_from_text("[]").is_none());
    assert!(data_table_rows_from_text(r#"[{"Rows": []}]"#).is_none());
    assert!(data_table_rows_from_text(r#"{"Rows": {}}"#).is_none());

    let summary = summary_rows_from_text(r#"{"rows": [{"abyss": "Abyss_4"}, 2]}"#).expect("summary rows");
    assert_eq!(summary.len(), 2);
    assert_eq!(summary[1], json("2"));
    assert!(summary_rows_from_text(r#"{"rows": {}}"#).is_none());
    assert!(summary_rows_from_text(r#"[{"rows": []}]"#).is_none());
    assert!(summary_rows_from_text("rows").is_none());
}

#[test]
fn season_names_text_is_parsed() {
    let names = season_names_from_text(r#"{"4": "晦冥环线", "ST": {"Abyss_5_name": "五"}}"#);
    assert_eq!(season_name(&names, 4), Some("晦冥环线"));
    assert_eq!(season_name(&names, 5), Some("五"));
    assert!(season_names_from_text("{\"4\": ").is_empty());
    assert!(season_names_from_text("[]").is_empty());
}

#[test]
fn compact_dataset_is_used_only_with_seasons() {
    let dataset = compact_dataset_from_text(r#"{"seasons": [{"season": 4, "floors": []}, {"season": 5, "floors": [{"floor": 1, "monsters": []}]}]}"#)
        .unwrap();
    assert_eq!(dataset.seasons.len(), 2);
    let kept = usable_compact_dataset(dataset).expect("a dataset with seasons is used");
    assert_eq!(kept.seasons[0].season, 4);
    assert_eq!(kept.seasons[1].floors[0].floor, 1);
    assert!(usable_compact_dataset(AbyssMonsterDataset { seasons: Vec::new() }).is_none());
}

#[test]
fn tables_fall_back_to_pack_ids() {
    let statics = build_static_index(&Vec::new());
    let pack_ids = vec!["Abyss_4_6_mon_1".to_owned()];
    let summary = vec![json(r#"{"abyss": "Abyss_5", "level_id": 2, "monsters": [{"attribute_id": "a"}]}"#)];

    let from_summary = build_dataset_from_tables(Some(summary), &pack_ids, &statics, &HashMap::new());
    assert_eq!(from_summary.seasons.len(), 1);
    assert!(from_summary.floor(5, 2).is_some());
    assert!(from_summary.floor(4, 6).is_none());

    let from_empty = build_dataset_from_tables(Some(Vec::new()), &pack_ids, &statics, &HashMap::new());
    assert_eq!(from_empty.floor(4, 6).unwrap().monsters[0].pack_id, "Abyss_4_6_mon_1");
    assert!(from_empty.floor(5, 2).is_none());

    let without = build_dataset_from_tables(None, &pack_ids, &statics, &HashMap::from([(4, "四".to_owned())]));
    assert_eq!(without.seasons[0].name.as_deref(), Some("四"));
    assert_eq!(without.floor(4, 6).unwrap().monsters.len(), 1);
}

#[test]
fn line_waves_group_by_wave_in_order() {
    let mut a = entry("a", "a", None, Some(2));
    a.count = 2;
    let b = entry("b", "b", None, None);
    let mut c = entry("c", "c", None, Some(1));
    c.count = 4;
    let mut d = entry("d", "d", None, Some(2));
    d.count = u32::MAX;
    let waves = line_waves(&vec![a, b, c, d]);
    let numbers: Vec<Option<u32>> = waves.iter().map(|wave| wave.wave).collect();
    assert_eq!(numbers, vec![Some(1), Some(2), None]);
    assert_eq!(waves[0].monster_count, 4);
    assert_eq!(waves[0].members, vec![2]);
    assert_eq!(waves[1].monster_count, u32::MAX);
    assert_eq!(waves[1].members, vec![0, 3]);
    assert_eq!(waves[2].monster_count, 1);
    assert_eq!(waves[2].members, vec![1]);
    assert!(line_waves(&Vec::new()).is_empty());
}
