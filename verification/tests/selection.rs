use nte_dps_core::abyss_data::{AbyssFloor, AbyssMonsterDataset, AbyssMonsterEntry, AbyssSeason};
use nte_dps_core::selection::{AbyssSelection, HistoryState};

fn entry(pack_id: &str) -> AbyssMonsterEntry {
    AbyssMonsterEntry {
        pack_id: pack_id.to_owned(),
        attribute_id: format!("{pack_id}_attr"),
        monster_pool_id: None,
        monster_id: "mon_1".to_owned(),
        name: "mon".to_owned(),
        count: 1,
        level: None,
        half: None,
        wave: None,
        is_boss: false,
    }
}

fn floor(season: u32, number: u32, packs: &[&str]) -> AbyssFloor {
    AbyssFloor {
        season,
        season_name: None,
        floor: number,
        name: None,
        monsters: packs.iter().map(|pack| entry(pack)).collect(),
    }
}

fn dataset() -> AbyssMonsterDataset {
    AbyssMonsterDataset {
        seasons: vec![
            AbyssSeason {
                season: 4,
                name: None,
                floors: vec![floor(4, 1, &["Abyss_4_1_mon_1"]), floor(4, 2, &["Abyss_4_2_mon_2"])],
            },
            AbyssSeason { season: 5, name: None, floors: vec![floor(5, 1, &["Abyss_5_1_mon_3"])] },
        ],
    }
}

fn ids(values: &[&str]) -> Vec<String> {
    values.iter().map(|value| value.to_string()).collect()
}

#[test]
fn abyss_selection_falls_back_to_the_first_floor() {
    let ds = dataset();
    let mut selection = AbyssSelection::new();
    selection.ensure_selection(Some(&ds));
    assert_eq!(selection.selected_season, Some(4));
    assert_eq!(selection.selected_floor, Some(1));
    assert_eq!(selection.expanded_season, Some(4));
    assert_eq!(selection.selected_monster_pack_id, None);
}

#[test]
fn abyss_selection_keeps_what_still_exists() {
    let ds = dataset();
    let mut selection = AbyssSelection {
        selected_season: Some(5),
        selected_floor: Some(1),
        expanded_season: Some(4),
        selected_monster_pack_id: Some("Abyss_4_2_mon_2".to_owned()),
    };
    selection.ensure_selection(Some(&ds));
    assert_eq!(selection.selected_season, Some(5));
    assert_eq!(selection.selected_floor, Some(1));
    assert_eq!(selection.expanded_season, Some(4));
    assert_eq!(selection.selected_monster_pack_id.as_deref(), Some("Abyss_4_2_mon_2"));
}

#[test]
fn abyss_selection_repairs_a_stale_floor_season_and_monster() {
    let ds = dataset();
    let mut selection = AbyssSelection {
        selected_season: Some(5),
        selected_floor: Some(9),
        expanded_season: Some(7),
        selected_monster_pack_id: Some("gone".to_owned()),
    };
    selection.ensure_selection(Some(&ds));
    assert_eq!((selection.selected_season, selection.selected_floor), (Some(4), Some(1)));
    assert_eq!(selection.expanded_season, Some(4));
    assert_eq!(selection.selected_monster_pack_id, None);
    let again = selection.clone();
    selection.ensure_selection(Some(&ds));
    assert_eq!(selection.selected_season, again.selected_season);
    assert_eq!(selection.selected_floor, again.selected_floor);
    assert_eq!(selection.expanded_season, again.expanded_season);
}

#[test]
fn abyss_selection_without_a_dataset_is_left_alone() {
    let mut selection = AbyssSelection {
        selected_season: Some(5),
        selected_floor: Some(9),
        expanded_season: None,
        selected_monster_pack_id: Some("gone".to_owned()),
    };
    selection.ensure_selection(None);
    assert_eq!(selection.selected_floor, Some(9));
    assert_eq!(selection.expanded_season, None);
    let empty = AbyssMonsterDataset { seasons: Vec::new() };
    selection.ensure_selection(Some(&empty));
    assert_eq!((selection.selected_season, selection.selected_floor), (Some(5), Some(9)));
    assert_eq!(selection.expanded_season, Some(5));
    assert_eq!(selection.selected_monster_pack_id, None);
}

#[test]
fn history_selection_defaults_to_the_first_two_records() {
    let state = HistoryState::load(ids(&["a", "b", "c"]), 2);
    assert_eq!(state.selected_id.as_deref(), Some("a"));
    assert_eq!(state.compare_left_id.as_deref(), Some("a"));
    assert_eq!(state.compare_right_id.as_deref(), Some("b"));
    assert_eq!(state.skipped_files, 2);
    assert_eq!(state.selected_record(), Some(0));
    assert_eq!(state.compare_records(), Some((0, 1)));
}

#[test]
fn history_reload_keeps_selections_that_still_exist() {
    let mut state = HistoryState::load(ids(&["a", "b", "c"]), 0);
    state.selected_id = Some("c".to_owned());
    state.compare_right_id = Some("c".to_owned());
    state.reload(ids(&["b", "c"]), 1);
    assert_eq!(state.selected_id.as_deref(), Some("c"));
    assert_eq!(state.compare_left_id.as_deref(), Some("b"));
    assert_eq!(state.compare_right_id.as_deref(), Some("c"));
    assert_eq!(state.selected_record(), Some(1));
    assert_eq!(state.compare_records(), Some((0, 1)));
}

#[test]
fn history_with_one_record_has_nothing_to_compare() {
    let state = HistoryState::load(ids(&["only"]), 0);
    assert_eq!(state.compare_right_id, None);
    assert_eq!(state.compare_records(), None);
    let empty = HistoryState::load(Vec::new(), 0);
    assert_eq!(empty.selected_id, None);
    assert_eq!(empty.selected_record(), None);
    let mut same = HistoryState::load(ids(&["a", "b"]), 0);
    same.compare_right_id = Some("a".to_owned());
    same.ensure_selection();
    assert_eq!(same.compare_records(), None);
}
