//! What the abyss and history views have selected, and how a selection is
//! repaired after the data under it changes: a selection that no longer
//! names anything falls back to the first entry.
use vstd::prelude::*;

use crate::ranking::opt_view;
use crate::abyss_data::{
    dataset_floor, find_season, first_key, first_with_pack, floors_match_seasons, season_monsters,
    AbyssMonsterDataset,
};

verus! {

// ---------------------------------------------------------------------------
// Abyss selection
// ---------------------------------------------------------------------------

/// The selected season and floor, the expanded season in the floor list and
/// the monster whose details are shown.
#[derive(Clone, Debug)]
pub struct AbyssSelection {
    pub selected_season: Option<u32>,
    pub selected_floor: Option<u32>,
    pub expanded_season: Option<u32>,
    pub selected_monster_pack_id: Option<String>,
}

pub struct AbyssSelectionView {
    pub season: Option<u32>,
    pub floor: Option<u32>,
    pub expanded: Option<u32>,
    pub monster: Option<Seq<char>>,
}

impl View for AbyssSelection {
    type V = AbyssSelectionView;

    open spec fn view(&self) -> AbyssSelectionView {
        AbyssSelectionView {
            season: self.selected_season,
            floor: self.selected_floor,
            expanded: self.expanded_season,
            monster: opt_view(self.selected_monster_pack_id),
        }
    }
}

/// The selected floor exists in `ds`.
pub open spec fn floor_selected(v: AbyssSelectionView, ds: AbyssMonsterDataset) -> bool {
    &&& v.season is Some
    &&& v.floor is Some
    &&& dataset_floor(ds, v.season->0, v.floor->0) is Some
}

/// The selection repaired against `ds`: an invalid floor selection moves to
/// the first floor (when there is one), an expanded season that is gone
/// follows the selected season, and a monster that is gone is deselected.
pub open spec fn repaired_abyss(v: AbyssSelectionView, ds: AbyssMonsterDataset) -> AbyssSelectionView {
    let (season, floor) = match first_key(ds) {
        Some(key) => if floor_selected(v, ds) {
            (v.season, v.floor)
        } else {
            (Some(key.0), Some(key.1))
        },
        None => (v.season, v.floor),
    };
    let expanded = match v.expanded {
        Some(s) => if find_season(ds.seasons@, s) is Some {
            v.expanded
        } else {
            season
        },
        None => season,
    };
    let monster = match v.monster {
        Some(p) => if first_with_pack(season_monsters(ds.seasons@), p) is Some {
            v.monster
        } else {
            None
        },
        None => None,
    };
    AbyssSelectionView { season, floor, expanded, monster }
}

impl AbyssSelection {
    pub fn new() -> (r: Self)
        ensures
            r@ == (AbyssSelectionView { season: None, floor: None, expanded: None, monster: None }),
    {
        AbyssSelection {
            selected_season: None,
            selected_floor: None,
            expanded_season: None,
            selected_monster_pack_id: None,
        }
    }

    /// Repairs the selection against the loaded dataset; without one it is
    /// left as it is.
    pub fn ensure_selection(&mut self, dataset: Option<&AbyssMonsterDataset>)
        ensures
            match dataset {
                Some(ds) => final(self)@ == repaired_abyss(old(self)@, *ds),
                None => final(self)@ == old(self)@,
            },
    {
        let ds = match dataset {
            Some(ds) => ds,
            None => return ,
        };
        let valid = match (self.selected_season, self.selected_floor) {
            (Some(season), Some(floor)) => ds.floor(season, floor).is_some(),
            _ => false,
        };
        if !valid {
            match ds.first_floor_key() {
                Some((season, floor)) => {
                    self.selected_season = Some(season);
                    self.selected_floor = Some(floor);
                },
                None => {},
            }
        }
        let expanded_gone = match self.expanded_season {
            Some(season) => ds.season(season).is_none(),
            None => true,
        };
        if expanded_gone {
            self.expanded_season = self.selected_season;
        }
        let monster_gone = match &self.selected_monster_pack_id {
            Some(pack_id) => ds.monster(pack_id.as_str()).is_none(),
            None => false,
        };
        if monster_gone {
            self.selected_monster_pack_id = None;
        }
    }
}

pub proof fn lemma_first_key_selects_a_floor(ds: AbyssMonsterDataset)
    requires
        floors_match_seasons(ds),
        first_key(ds) is Some,
    ensures
        first_key(ds) matches Some(key) && dataset_floor(ds, key.0, key.1) is Some && find_season(
            ds.seasons@,
            key.0,
        ) is Some,
{
    assert(ds.seasons@[0].floors@[0].season == ds.seasons@[0].season);
}

/// After a repair against a dataset that has a floor, a floor is selected,
/// the expanded season exists and the shown monster (if any) exists; a
/// second repair changes nothing.
pub proof fn lemma_repaired_abyss_selection(v: AbyssSelectionView, ds: AbyssMonsterDataset)
    requires
        floors_match_seasons(ds),
    ensures
        repaired_abyss(repaired_abyss(v, ds), ds) == repaired_abyss(v, ds),
        first_key(ds) is Some ==> floor_selected(repaired_abyss(v, ds), ds),
        first_key(ds) is Some ==> find_season(
            ds.seasons@,
            repaired_abyss(v, ds).expanded->0,
        ) is Some && repaired_abyss(v, ds).expanded is Some,
        repaired_abyss(v, ds).monster matches Some(p) ==> first_with_pack(
            season_monsters(ds.seasons@),
            p,
        ) is Some,
{
    let r = repaired_abyss(v, ds);
    if first_key(ds) is Some {
        lemma_first_key_selects_a_floor(ds);
    }
    if floor_selected(v, ds) {
        let s = v.season->0;
        assert(find_season(ds.seasons@, s) is Some);
    }
}

// ---------------------------------------------------------------------------
// History selection
// ---------------------------------------------------------------------------

/// The saved battle records (by id) and which of them are selected for the
/// detail view and for comparison.
#[derive(Clone, Debug)]
pub struct HistoryState {
    pub record_ids: Vec<String>,
    pub selected_id: Option<String>,
    pub compare_left_id: Option<String>,
    pub compare_right_id: Option<String>,
    pub skipped_files: usize,
    pub message: String,
}

pub struct HistoryView {
    pub ids: Seq<Seq<char>>,
    pub selected: Option<Seq<char>>,
    pub left: Option<Seq<char>>,
    pub right: Option<Seq<char>>,
}

pub open spec fn id_texts(v: Seq<String>) -> Seq<Seq<char>> {
    v.map_values(|s: String| s@)
}

impl View for HistoryState {
    type V = HistoryView;

    open spec fn view(&self) -> HistoryView {
        HistoryView {
            ids: id_texts(self.record_ids@),
            selected: opt_view(self.selected_id),
            left: opt_view(self.compare_left_id),
            right: opt_view(self.compare_right_id),
        }
    }
}

/// The `n`-th id, when there is one.
pub open spec fn nth_id(ids: Seq<Seq<char>>, n: int) -> Option<Seq<char>> {
    if 0 <= n < ids.len() {
        Some(ids[n])
    } else {
        None
    }
}

/// `current` when it names a record, else `fallback`.
pub open spec fn kept_or(ids: Seq<Seq<char>>, current: Option<Seq<char>>, fallback: Option<Seq<char>>) -> Option<Seq<char>> {
    match current {
        Some(id) => if ids.contains(id) {
            current
        } else {
            fallback
        },
        None => fallback,
    }
}

/// The selection repaired against the records: the detail view and the
/// left side fall back to the first record, the right side to the second.
pub open spec fn repaired_history(v: HistoryView) -> HistoryView {
    HistoryView {
        ids: v.ids,
        selected: kept_or(v.ids, v.selected, nth_id(v.ids, 0)),
        left: kept_or(v.ids, v.left, nth_id(v.ids, 0)),
        right: kept_or(v.ids, v.right, nth_id(v.ids, 1)),
    }
}

fn find_id(ids: &Vec<String>, id: &String) -> (r: Option<usize>)
    ensures
        r is None <==> !id_texts(ids@).contains(id@),
        r matches Some(i) ==> i < ids@.len() && id_texts(ids@)[i as int] == id@ && forall|j: int|
            0 <= j < i ==> #[trigger] id_texts(ids@)[j] != id@,
{
    let mut i: usize = 0;
    while i < ids.len()
        invariant
            i <= ids@.len(),
            forall|j: int| 0 <= j < i ==> #[trigger] id_texts(ids@)[j] != id@,
        decreases ids.len() - i,
    {
        if ids[i] == *id {
            assert(id_texts(ids@)[i as int] == id@);
            return Some(i);
        }
        i += 1;
    }
    proof {
        if id_texts(ids@).contains(id@) {
            let k = choose|k: int| 0 <= k < id_texts(ids@).len() && id_texts(ids@)[k] == id@;
            assert(id_texts(ids@)[k] != id@);
        }
    }
    None
}

fn kept_or_exec(ids: &Vec<String>, current: &Option<String>, fallback_index: usize) -> (r: Option<String>)
    ensures
        opt_view(r) == kept_or(id_texts(ids@), opt_view(*current), nth_id(id_texts(ids@), fallback_index as int)),
{
    let keep = match current {
        Some(id) => find_id(ids, id).is_some(),
        None => false,
    };
    if keep {
        current.clone()
    } else if fallback_index < ids.len() {
        Some(ids[fallback_index].clone())
    } else {
        None
    }
}

impl HistoryState {
    /// The state of freshly loaded records (by id): the first ones selected.
    pub fn load(record_ids: Vec<String>, skipped_files: usize) -> (r: Self)
        ensures
            r@ == repaired_history(HistoryView { ids: id_texts(record_ids@), selected: None, left: None, right: None }),
            r.skipped_files == skipped_files,
            r.message@ == Seq::<char>::empty(),
    {
        let mut state = HistoryState {
            record_ids,
            selected_id: None,
            compare_left_id: None,
            compare_right_id: None,
            skipped_files,
            message: String::new(),
        };
        state.ensure_selection();
        state
    }

    /// Takes freshly loaded records, keeping what was selected where it still exists.
    pub fn reload(&mut self, record_ids: Vec<String>, skipped_files: usize)
        ensures
            final(self)@ == repaired_history(HistoryView { ids: id_texts(record_ids@), ..old(self)@ }),
            final(self).skipped_files == skipped_files,
            final(self).message == old(self).message,
    {
        self.record_ids = record_ids;
        self.skipped_files = skipped_files;
        self.ensure_selection();
    }

    pub fn ensure_selection(&mut self)
        ensures
            final(self)@ == repaired_history(old(self)@),
            final(self).skipped_files == old(self).skipped_files,
            final(self).message == old(self).message,
    {
        let selected = kept_or_exec(&self.record_ids, &self.selected_id, 0);
        let left = kept_or_exec(&self.record_ids, &self.compare_left_id, 0);
        let right = kept_or_exec(&self.record_ids, &self.compare_right_id, 1);
        self.selected_id = selected;
        self.compare_left_id = left;
        self.compare_right_id = right;
    }

    /// The index of the selected record.
    pub fn selected_record(&self) -> (r: Option<usize>)
        ensures
            r is None <==> (self@.selected matches Some(id) ==> !self@.ids.contains(id)),
            r matches Some(i) ==> i < self@.ids.len() && self@.selected == Some(self@.ids[i as int])
                && forall|j: int| 0 <= j < i ==> #[trigger] self@.ids[j] != self@.ids[i as int],
    {
        match &self.selected_id {
            Some(id) => find_id(&self.record_ids, id),
            None => None,
        }
    }

    /// The indices of the two records to compare: both named, different, and present.
    pub fn compare_records(&self) -> (r: Option<(usize, usize)>)
        ensures
            r is Some <==> (self@.left matches Some(l) && self@.right matches Some(rt) && l != rt
                && self@.ids.contains(l) && self@.ids.contains(rt)),
            r matches Some(p) ==> p.0 < self@.ids.len() && p.1 < self@.ids.len() && self@.left == Some(
                self@.ids[p.0 as int],
            ) && self@.right == Some(self@.ids[p.1 as int]) && (forall|j: int|
                0 <= j < p.0 ==> #[trigger] self@.ids[j] != self@.ids[p.0 as int]) && (forall|j: int|
                0 <= j < p.1 ==> #[trigger] self@.ids[j] != self@.ids[p.1 as int]),
    {
        let left = match &self.compare_left_id {
            Some(id) => id,
            None => return None,
        };
        let right = match &self.compare_right_id {
            Some(id) => id,
            None => return None,
        };
        if *left == *right {
            return None;
        }
        let l = match find_id(&self.record_ids, left) {
            Some(i) => i,
            None => return None,
        };
        let r = match find_id(&self.record_ids, right) {
            Some(i) => i,
            None => return None,
        };
        Some((l, r))
    }
}

/// After a repair every selection names a record (the right side when there
/// are two), and a second repair changes nothing.
pub proof fn lemma_repaired_history_selection(v: HistoryView)
    ensures
        repaired_history(repaired_history(v)) == repaired_history(v),
        v.ids.len() > 0 ==> (repaired_history(v).selected matches Some(id) && v.ids.contains(id)),
        v.ids.len() > 0 ==> (repaired_history(v).left matches Some(id) && v.ids.contains(id)),
        v.ids.len() > 1 ==> (repaired_history(v).right matches Some(id) && v.ids.contains(id)),
{
    if v.ids.len() > 0 {
        assert(v.ids.contains(v.ids[0]));
    }
    if v.ids.len() > 1 {
        assert(v.ids.contains(v.ids[1]));
    }
}

} // verus!
