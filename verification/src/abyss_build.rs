//! Building the abyss dataset from its JSON sources: the compact dataset
//! file, the floor summary rows and the monster pack ids, with monster names
//! looked up in the static monster table and season names from the
//! localisation tables.
//!
//! Numeric stats are floating point and are read by the caller; entries are
//! matched to them by `pack_id` and `attribute_id`.
use std::collections::HashMap;
use vstd::prelude::*;

use crate::abyss_data::{
    entry_view, entry_view_le, floor_view, floor_view_le, lemma_sorted_entry_views,
    lemma_sorted_floor_views, lemma_sorted_season_views, season_view, season_view_le,
    AbyssFloor, AbyssMonsterDataset, AbyssMonsterEntry, AbyssSeason, EntryView, FloorView,
    SeasonView, dataset_view, season_ordered, well_ordered,
};
use crate::abyss_keys::{
    is_supported_abyss_season, monster_id_from_class_path, monster_lookup_keys,
    parse_abyss_attribute_monster_id, parse_abyss_group, parse_abyss_route_half,
    parse_abyss_pack_id, spec_monster_id_from_class_path, spec_monster_lookup_keys,
    spec_parse_abyss_pack_id,
    spec_parse_abyss_attribute_monster_id, spec_parse_abyss_group, spec_parse_abyss_route_half,
    supported_season,
};
use crate::monster_images::push_all;
use crate::json::{
    as_text, json_document, member, parse_json_document, take_member, value_member, JsonNumber,
    JsonValue,
};
use crate::ranking::{
    lemma_arrangement_elements, lemma_sort_by_map, opt_view, rank_rel, sort_by, sort_by_rank,
    sorted_by_rank, Ranked,
};
use crate::text::{
    chars_of, chars_range, ends_with_exec, parse_u32_str, starts_with_exec, string_of_range, trimmed,
    decimal, has_char, is_blank, parse_u32, push_decimal, push_str, push_unique_key, str_is_blank,
    strip_prefix, strip_suffix, texts, trim,
};

verus! {

broadcast use vstd::std_specs::hash::group_hash_axioms;

// ---------------------------------------------------------------------------
// Reading fields of a JSON row
// ---------------------------------------------------------------------------

/// The text of member `key` (`row.get(key).and_then(Value::as_str)`).
pub open spec fn field_text(row: JsonValue, key: Seq<char>) -> Option<Seq<char>> {
    as_text(member(row, key))
}

/// Member `key` as a `u32`: a non-negative integer that fits.
pub open spec fn field_u32(row: JsonValue, key: Seq<char>) -> Option<u32> {
    match member(row, key) {
        Some(JsonValue::Number(JsonNumber::PosInt(n))) => if n <= u32::MAX {
            Some(n as u32)
        } else {
            None
        },
        _ => None,
    }
}

/// Member `key` when it is `true`; `false` otherwise.
pub open spec fn field_bool(row: JsonValue, key: Seq<char>) -> bool {
    match member(row, key) {
        Some(JsonValue::Bool(b)) => b,
        _ => false,
    }
}

/// The elements of member `key` when it is an array.
pub open spec fn field_array(row: JsonValue, key: Seq<char>) -> Option<Seq<JsonValue>> {
    match member(row, key) {
        Some(JsonValue::Array(a)) => Some(a@),
        _ => None,
    }
}

pub fn text_field(row: &JsonValue, key: &str) -> (r: Option<String>)
    ensures
        opt_view(r) == field_text(*row, key@),
{
    match value_member(row, key) {
        Some(JsonValue::String(s)) => Some(s.clone()),
        _ => None,
    }
}

pub fn u32_field(row: &JsonValue, key: &str) -> (r: Option<u32>)
    ensures
        r == field_u32(*row, key@),
{
    match value_member(row, key) {
        Some(JsonValue::Number(JsonNumber::PosInt(n))) => {
            if *n <= 0xFFFF_FFFFu64 {
                Some(*n as u32)
            } else {
                None
            }
        },
        _ => None,
    }
}

pub fn bool_field(row: &JsonValue, key: &str) -> (r: bool)
    ensures
        r == field_bool(*row, key@),
{
    match value_member(row, key) {
        Some(JsonValue::Bool(b)) => *b,
        _ => false,
    }
}

pub fn array_field<'a>(row: &'a JsonValue, key: &str) -> (r: Option<&'a Vec<JsonValue>>)
    ensures
        r is None <==> field_array(*row, key@) is None,
        r matches Some(a) ==> field_array(*row, key@) == Some(a@),
{
    match value_member(row, key) {
        Some(JsonValue::Array(a)) => Some(a),
        _ => None,
    }
}

/// A text that is present and not blank.
pub open spec fn non_blank(v: Option<Seq<char>>) -> Option<Seq<char>> {
    match v {
        Some(s) => if is_blank(s) {
            None
        } else {
            Some(s)
        },
        None => None,
    }
}

fn non_blank_exec(v: Option<String>) -> (r: Option<String>)
    ensures
        opt_view(r) == non_blank(opt_view(v)),
{
    match v {
        Some(s) => if str_is_blank(s.as_str()) {
            None
        } else {
            Some(s)
        },
        None => None,
    }
}

// ---------------------------------------------------------------------------
// The compact dataset file
// ---------------------------------------------------------------------------

/// A monster row of the compact file: it needs a pack id and a monster id;
/// the attribute id defaults to the pack id, a blank name to the monster id
/// and a count to at least one.
pub open spec fn compact_entry(row: JsonValue) -> Option<EntryView> {
    match (field_text(row, "pack_id"@), field_text(row, "monster_id"@)) {
        (Some(pack_id), Some(monster_id)) => Some(
            EntryView {
                pack_id,
                attribute_id: match field_text(row, "attribute_id"@) {
                    Some(a) => a,
                    None => pack_id,
                },
                monster_pool_id: field_text(row, "monster_pool_id"@),
                monster_id,
                name: match non_blank(field_text(row, "name"@)) {
                    Some(n) => n,
                    None => monster_id,
                },
                count: match field_u32(row, "count"@) {
                    Some(c) => if c < 1 {
                        1
                    } else {
                        c
                    },
                    None => 1,
                },
                level: field_u32(row, "level"@),
                half: field_u32(row, "half"@),
                wave: field_u32(row, "wave"@),
                is_boss: field_bool(row, "is_boss"@),
            },
        ),
        _ => None,
    }
}

/// The entries of the monster rows that have one, in row order.
pub open spec fn compact_entries(rows: Seq<JsonValue>) -> Seq<EntryView>
    decreases rows.len(),
{
    if rows.len() == 0 {
        Seq::empty()
    } else {
        match compact_entry(rows.last()) {
            Some(e) => compact_entries(rows.drop_last()).push(e),
            None => compact_entries(rows.drop_last()),
        }
    }
}

/// A monster row of the compact file gives an entry exactly when its
/// `pack_id` and `monster_id` are strings. The entry keeps both, takes its
/// attribute id from `attribute_id` (else the pack id), is a boss exactly
/// when the row's `is_boss` is `true`, counts at least one monster (the
/// row's `count` when that is a positive `u32`) and keeps the row's `wave`,
/// `half` and `level` when they are `u32` numbers, none when absent.
pub proof fn law_compact_entry_fields(row: JsonValue)
    ensures
        compact_entry(row) is Some <==> ((member(row, "pack_id"@) matches Some(JsonValue::String(_)))
            && (member(row, "monster_id"@) matches Some(JsonValue::String(_)))),
        compact_entry(row) matches Some(e) ==> {
            &&& (member(row, "pack_id"@) matches Some(JsonValue::String(p)) && p@ == e.pack_id)
            &&& (member(row, "monster_id"@) matches Some(JsonValue::String(m)) && m@ == e.monster_id)
            &&& (member(row, "attribute_id"@) matches Some(JsonValue::String(a)) ==> e.attribute_id == a@)
            &&& (!(member(row, "attribute_id"@) matches Some(JsonValue::String(_))) ==> e.attribute_id
                == e.pack_id)
            &&& (e.is_boss <==> member(row, "is_boss"@) == Some(JsonValue::Bool(true)))
            &&& e.count >= 1
            &&& (member(row, "count"@) matches Some(JsonValue::Number(JsonNumber::PosInt(n))) ==> (1 <= n
                <= u32::MAX ==> e.count == n))
            &&& (member(row, "wave"@) matches Some(JsonValue::Number(JsonNumber::PosInt(n))) ==> (n
                <= u32::MAX ==> e.wave == Some(n as u32)))
            &&& (member(row, "half"@) matches Some(JsonValue::Number(JsonNumber::PosInt(n))) ==> (n
                <= u32::MAX ==> e.half == Some(n as u32)))
            &&& (member(row, "level"@) matches Some(JsonValue::Number(JsonNumber::PosInt(n))) ==> (n
                <= u32::MAX ==> e.level == Some(n as u32)))
            &&& (member(row, "wave"@) is None ==> e.wave is None)
            &&& (member(row, "half"@) is None ==> e.half is None)
            &&& e.monster_pool_id == as_text(member(row, "monster_pool_id"@))
            &&& (member(row, "name"@) matches Some(JsonValue::String(n)) ==> (is_blank(n@) ==> e.name
                == e.monster_id) && (!is_blank(n@) ==> e.name == n@))
            &&& (!(member(row, "name"@) matches Some(JsonValue::String(_))) ==> e.name == e.monster_id)
        },
{
}

/// A floor row of the compact file: it needs a floor number and a monster
/// array; its monsters are sorted.
pub open spec fn compact_floor(season: u32, season_name: Option<Seq<char>>, row: JsonValue) -> Option<
    FloorView,
> {
    match (field_u32(row, "floor"@), field_array(row, "monsters"@)) {
        (Some(floor), Some(monsters)) => Some(
            FloorView {
                season,
                season_name,
                floor,
                name: field_text(row, "name"@),
                monsters: sort_by(compact_entries(monsters), entry_view_le()),
            },
        ),
        _ => None,
    }
}

pub open spec fn compact_floors(season: u32, season_name: Option<Seq<char>>, rows: Seq<JsonValue>) -> Seq<
    FloorView,
>
    decreases rows.len(),
{
    if rows.len() == 0 {
        Seq::empty()
    } else {
        match compact_floor(season, season_name, rows.last()) {
            Some(f) => compact_floors(season, season_name, rows.drop_last()).push(f),
            None => compact_floors(season, season_name, rows.drop_last()),
        }
    }
}

/// A season row of the compact file: it needs a supported season number and
/// a floor array; its floors are sorted by number.
pub open spec fn compact_season(row: JsonValue) -> Option<SeasonView> {
    match (field_u32(row, "season"@), field_array(row, "floors"@)) {
        (Some(season), Some(floors)) => if supported_season(season) {
            Some(
                SeasonView {
                    season,
                    name: field_text(row, "name"@),
                    floors: sort_by(
                        compact_floors(season, field_text(row, "name"@), floors),
                        floor_view_le(),
                    ),
                },
            )
        } else {
            None
        },
        _ => None,
    }
}

pub open spec fn compact_seasons(rows: Seq<JsonValue>) -> Seq<SeasonView>
    decreases rows.len(),
{
    if rows.len() == 0 {
        Seq::empty()
    } else {
        match compact_season(rows.last()) {
            Some(s) => compact_seasons(rows.drop_last()).push(s),
            None => compact_seasons(rows.drop_last()),
        }
    }
}

/// The dataset of a compact file: its season rows sorted by number; none
/// when the document has no `seasons` array.
pub open spec fn compact_dataset(document: JsonValue) -> Option<Seq<SeasonView>> {
    match field_array(document, "seasons"@) {
        Some(rows) => Some(sort_by(compact_seasons(rows), season_view_le())),
        None => None,
    }
}

fn compact_entry_exec(row: &JsonValue) -> (r: Option<AbyssMonsterEntry>)
    ensures
        r is None <==> compact_entry(*row) is None,
        r matches Some(e) ==> compact_entry(*row) == Some(entry_view(e)),
{
    let pack_id = match text_field(row, "pack_id") {
        Some(p) => p,
        None => return None,
    };
    let monster_id = match text_field(row, "monster_id") {
        Some(m) => m,
        None => return None,
    };
    let attribute_id = match text_field(row, "attribute_id") {
        Some(a) => a,
        None => pack_id.clone(),
    };
    let name = match non_blank_exec(text_field(row, "name")) {
        Some(n) => n,
        None => monster_id.clone(),
    };
    let count = match u32_field(row, "count") {
        Some(c) => if c < 1 {
            1
        } else {
            c
        },
        None => 1,
    };
    Some(
        AbyssMonsterEntry {
            pack_id,
            attribute_id,
            monster_pool_id: text_field(row, "monster_pool_id"),
            monster_id,
            name,
            count,
            level: u32_field(row, "level"),
            half: u32_field(row, "half"),
            wave: u32_field(row, "wave"),
            is_boss: bool_field(row, "is_boss"),
        },
    )
}

fn compact_floor_exec(season: u32, season_name: &Option<String>, row: &JsonValue) -> (r: Option<
    AbyssFloor,
>)
    ensures
        r is None <==> compact_floor(season, opt_view(*season_name), *row) is None,
        r matches Some(f) ==> compact_floor(season, opt_view(*season_name), *row) == Some(
            floor_view(f),
        ) && f.season == season && sorted_by_rank(f.monsters@),
{
    let floor = match u32_field(row, "floor") {
        Some(f) => f,
        None => return None,
    };
    let rows = match array_field(row, "monsters") {
        Some(a) => a,
        None => return None,
    };
    let mut monsters: Vec<AbyssMonsterEntry> = Vec::new();
    let mut i: usize = 0;
    assert(rows@.take(0) =~= Seq::<JsonValue>::empty());
    while i < rows.len()
        invariant
            i <= rows@.len(),
            monsters@.map_values(|e: AbyssMonsterEntry| entry_view(e)) == compact_entries(
                rows@.take(i as int),
            ),
        decreases rows.len() - i,
    {
        assert(rows@.take(i + 1).drop_last() =~= rows@.take(i as int));
        match compact_entry_exec(&rows[i]) {
            Some(e) => {
                monsters.push(e);
                assert(monsters@.map_values(|e: AbyssMonsterEntry| entry_view(e)) =~= compact_entries(
                    rows@.take(i + 1),
                ));
            },
            None => {},
        }
        i += 1;
    }
    assert(rows@.take(rows@.len() as int) =~= rows@);
    let ghost unsorted = monsters@;
    let sorted = sort_by_rank(monsters);
    proof {
        lemma_sorted_entry_views(unsorted);
    }
    let name = text_field(row, "name");
    let r = AbyssFloor { season, season_name: season_name.clone(), floor, name, monsters: sorted };
    assert(floor_view(r).monsters == sort_by(compact_entries(rows@), entry_view_le()));
    Some(r)
}

fn compact_season_exec(row: &JsonValue) -> (r: Option<AbyssSeason>)
    ensures
        r is None <==> compact_season(*row) is None,
        r matches Some(s) ==> compact_season(*row) == Some(season_view(s)) && season_ordered(s),
{
    let season = match u32_field(row, "season") {
        Some(s) => s,
        None => return None,
    };
    if !is_supported_abyss_season(season) {
        return None;
    }
    let name = text_field(row, "name");
    let rows = match array_field(row, "floors") {
        Some(a) => a,
        None => return None,
    };
    let mut floors: Vec<AbyssFloor> = Vec::new();
    let mut i: usize = 0;
    assert(rows@.take(0) =~= Seq::<JsonValue>::empty());
    while i < rows.len()
        invariant
            i <= rows@.len(),
            floors@.map_values(|f: AbyssFloor| floor_view(f)) == compact_floors(
                season,
                opt_view(name),
                rows@.take(i as int),
            ),
            forall|j: int| 0 <= j < floors@.len() ==> (#[trigger] floors@[j]).season == season
                && sorted_by_rank(floors@[j].monsters@),
        decreases rows.len() - i,
    {
        assert(rows@.take(i + 1).drop_last() =~= rows@.take(i as int));
        match compact_floor_exec(season, &name, &rows[i]) {
            Some(f) => {
                floors.push(f);
                assert(floors@.map_values(|f: AbyssFloor| floor_view(f)) =~= compact_floors(
                    season,
                    opt_view(name),
                    rows@.take(i + 1),
                ));
            },
            None => {},
        }
        i += 1;
    }
    assert(rows@.take(rows@.len() as int) =~= rows@);
    let ghost unsorted = floors@;
    let sorted = sort_by_rank(floors);
    proof {
        lemma_sorted_floor_views(unsorted);
        lemma_arrangement_elements(sorted@, unsorted);
        assert forall|j: int| 0 <= j < sorted@.len() implies (#[trigger] sorted@[j]).season == season
            && sorted_by_rank(sorted@[j].monsters@) by {
            assert(unsorted.contains(sorted@[j]));
        }
    }
    let r = AbyssSeason { season, name, floors: sorted };
    assert(season_view(r).floors == sort_by(
        compact_floors(season, opt_view(name), rows@),
        floor_view_le(),
    ));
    Some(r)
}

/// The dataset held by a compact dataset document.
pub fn compact_dataset_from_document(document: &JsonValue) -> (r: Option<AbyssMonsterDataset>)
    ensures
        r is None <==> compact_dataset(*document) is None,
        r matches Some(ds) ==> compact_dataset(*document) == Some(dataset_view(ds)) && well_ordered(ds),
{
    let rows = match array_field(document, "seasons") {
        Some(a) => a,
        None => return None,
    };
    let mut seasons: Vec<AbyssSeason> = Vec::new();
    let mut i: usize = 0;
    assert(rows@.take(0) =~= Seq::<JsonValue>::empty());
    while i < rows.len()
        invariant
            i <= rows@.len(),
            seasons@.map_values(|s: AbyssSeason| season_view(s)) == compact_seasons(
                rows@.take(i as int),
            ),
            forall|j: int| 0 <= j < seasons@.len() ==> season_ordered(#[trigger] seasons@[j]),
        decreases rows.len() - i,
    {
        assert(rows@.take(i + 1).drop_last() =~= rows@.take(i as int));
        match compact_season_exec(&rows[i]) {
            Some(s) => {
                seasons.push(s);
                assert(seasons@.map_values(|s: AbyssSeason| season_view(s)) =~= compact_seasons(
                    rows@.take(i + 1),
                ));
            },
            None => {},
        }
        i += 1;
    }
    assert(rows@.take(rows@.len() as int) =~= rows@);
    let ghost unsorted = seasons@;
    let sorted = sort_by_rank(seasons);
    proof {
        lemma_sorted_season_views(unsorted);
        lemma_arrangement_elements(sorted@, unsorted);
        assert forall|j: int| 0 <= j < sorted@.len() implies season_ordered(#[trigger] sorted@[j]) by {
            assert(unsorted.contains(sorted@[j]));
        }
    }
    Some(AbyssMonsterDataset { seasons: sorted })
}

// ---------------------------------------------------------------------------
// Grouping
// ---------------------------------------------------------------------------

/// Values grouped under keys, in the order the keys first came.
pub struct Groups<K, V> {
    pub keys: Seq<K>,
    pub lists: Seq<Seq<V>>,
}

/// The first index of `k` in `keys`.
pub open spec fn first_index_of<K>(keys: Seq<K>, k: K) -> Option<int> {
    if keys.contains(k) {
        Some(choose|i: int| 0 <= i < keys.len() && keys[i] == k && forall|j: int| 0 <= j < i ==> keys[j] != k)
    } else {
        None
    }
}

/// `v` added to the group of `k`, which is opened when it is new
/// (`map.entry(k).or_default().push(v)`).
pub open spec fn add_to_group<K, V>(g: Groups<K, V>, k: K, v: V) -> Groups<K, V> {
    match first_index_of(g.keys, k) {
        Some(i) => Groups { keys: g.keys, lists: g.lists.update(i, g.lists[i].push(v)) },
        None => Groups { keys: g.keys.push(k), lists: g.lists.push(seq![v]) },
    }
}

proof fn lemma_first_index_of<K>(keys: Seq<K>, k: K, i: int)
    requires
        0 <= i < keys.len(),
        keys[i] == k,
        forall|j: int| 0 <= j < i ==> keys[j] != k,
    ensures
        first_index_of(keys, k) == Some(i),
{
    assert(keys.contains(k));
    let w = choose|w: int| 0 <= w < keys.len() && keys[w] == k && forall|j: int| 0 <= j < w ==> keys[j] != k;
    if w < i {
        assert(keys[w] != k);
    } else if w > i {
        assert(keys[i] != k);
    }
}

/// Finds `k` among `keys`: the first index where it occurs.
fn find_key(keys: &Vec<u32>, k: u32) -> (r: Option<usize>)
    ensures
        r is None <==> first_index_of(keys@, k) is None,
        r matches Some(i) ==> first_index_of(keys@, k) == Some(i as int) && i < keys@.len() && keys@[i as int] == k,
{
    let mut i: usize = 0;
    while i < keys.len()
        invariant
            i <= keys@.len(),
            forall|j: int| 0 <= j < i ==> keys@[j] != k,
        decreases keys.len() - i,
    {
        if keys[i] == k {
            proof {
                lemma_first_index_of(keys@, k, i as int);
            }
            return Some(i);
        }
        i += 1;
    }
    proof {
        if keys@.contains(k) {
            let w = choose|w: int| 0 <= w < keys@.len() && keys@[w] == k;
            assert(keys@[w] != k);
        }
    }
    None
}

/// Appends `x` to the `i`-th list.
fn push_into<T>(lists: &mut Vec<Vec<T>>, i: usize, x: T)
    requires
        i < old(lists)@.len(),
    ensures
        final(lists)@.len() == old(lists)@.len(),
        forall|j: int| 0 <= j < final(lists)@.len() && j != i ==> #[trigger] final(lists)@[j] == old(lists)@[j],
        final(lists)@[i as int]@ == old(lists)@[i as int]@.push(x),
{
    let mut list = lists.remove(i);
    list.push(x);
    lists.insert(i, list);
}

// ---------------------------------------------------------------------------
// Assembling the dataset
// ---------------------------------------------------------------------------

/// The monsters gathered for one floor.
pub struct FloorGroup {
    pub season: u32,
    pub floor: u32,
    pub monsters: Vec<AbyssMonsterEntry>,
}

pub open spec fn group_view(g: FloorGroup) -> (u32, u32, Seq<EntryView>) {
    (g.season, g.floor, g.monsters@.map_values(|e: AbyssMonsterEntry| entry_view(e)))
}

/// The name given to floor (`season`, `floor`): the first that names it.
pub open spec fn floor_name_of(names: Seq<(u32, u32, Seq<char>)>, season: u32, floor: u32) -> Option<Seq<char>>
    decreases names.len(),
{
    if names.len() == 0 {
        None
    } else if names[0].0 == season && names[0].1 == floor {
        Some(names[0].2)
    } else {
        floor_name_of(names.drop_first(), season, floor)
    }
}

/// The name of `season`; the shared settings of season 0, when no name is
/// given for them, are "通用配置".
pub open spec fn season_name_of(names: Map<u32, Seq<char>>, season: u32) -> Option<Seq<char>> {
    if names.contains_key(season) {
        Some(names[season])
    } else if season == 0 {
        Some("通用配置"@)
    } else {
        None
    }
}

pub open spec fn floor_names_view(names: Seq<(u32, u32, String)>) -> Seq<(u32, u32, Seq<char>)> {
    names.map_values(|e: (u32, u32, String)| (e.0, e.1, e.2@))
}

pub open spec fn season_names_view(names: Map<u32, String>) -> Map<u32, Seq<char>> {
    names.map_values(|name: String| name@)
}

fn floor_name_exec(names: &Vec<(u32, u32, String)>, season: u32, floor: u32) -> (r: Option<String>)
    ensures
        opt_view(r) == floor_name_of(floor_names_view(names@), season, floor),
{
    let ghost nv = floor_names_view(names@);
    let mut i: usize = 0;
    assert(nv.skip(0) =~= nv);
    while i < names.len()
        invariant
            i <= names@.len(),
            nv == floor_names_view(names@),
            floor_name_of(nv, season, floor) == floor_name_of(nv.skip(i as int), season, floor),
        decreases names.len() - i,
    {
        assert(nv.skip(i as int)[0] == nv[i as int]);
        if names[i].0 == season && names[i].1 == floor {
            return Some(names[i].2.clone());
        }
        assert(nv.skip(i as int).drop_first() =~= nv.skip(i + 1));
        i += 1;
    }
    None
}

fn season_name_exec(names: &HashMap<u32, String>, season: u32) -> (r: Option<String>)
    ensures
        opt_view(r) == season_name_of(season_names_view(names@), season),
{
    match names.get(&season) {
        Some(name) => Some(name.clone()),
        None => {
            if season == 0 {
                Some(crate::text::owned("通用配置"))
            } else {
                None
            }
        },
    }
}

/// The floors of supported seasons, each with its monsters sorted and its
/// season and floor names, in the order the groups come.
pub open spec fn built_floors(
    groups: Seq<(u32, u32, Seq<EntryView>)>,
    floor_names: Seq<(u32, u32, Seq<char>)>,
    season_names: Map<u32, Seq<char>>,
) -> Seq<FloorView>
    decreases groups.len(),
{
    if groups.len() == 0 {
        Seq::empty()
    } else {
        let g = groups.last();
        let rest = built_floors(groups.drop_last(), floor_names, season_names);
        if supported_season(g.0) {
            rest.push(
                FloorView {
                    season: g.0,
                    season_name: season_name_of(season_names, g.0),
                    floor: g.1,
                    name: floor_name_of(floor_names, g.0, g.1),
                    monsters: sort_by(g.2, entry_view_le()),
                },
            )
        } else {
            rest
        }
    }
}

/// Floors grouped by season.
pub open spec fn season_groups(floors: Seq<FloorView>) -> Groups<u32, FloorView>
    decreases floors.len(),
{
    if floors.len() == 0 {
        Groups { keys: Seq::empty(), lists: Seq::empty() }
    } else {
        add_to_group(season_groups(floors.drop_last()), floors.last().season, floors.last())
    }
}

/// The seasons of grouped floors, each named and with its floors sorted by number.
pub open spec fn grouped_seasons(g: Groups<u32, FloorView>, season_names: Map<u32, Seq<char>>) -> Seq<
    SeasonView,
> {
    Seq::new(
        g.keys.len(),
        |i: int|
            SeasonView {
                season: g.keys[i],
                name: season_name_of(season_names, g.keys[i]),
                floors: sort_by(g.lists[i], floor_view_le()),
            },
    )
}

/// The dataset of the floor groups: seasons sorted by number.
pub open spec fn built_dataset(
    groups: Seq<(u32, u32, Seq<EntryView>)>,
    floor_names: Seq<(u32, u32, Seq<char>)>,
    season_names: Map<u32, Seq<char>>,
) -> Seq<SeasonView> {
    sort_by(
        grouped_seasons(season_groups(built_floors(groups, floor_names, season_names)), season_names),
        season_view_le(),
    )
}

pub open spec fn floor_lists_view(lists: Seq<Vec<AbyssFloor>>) -> Seq<Seq<FloorView>> {
    lists.map_values(|l: Vec<AbyssFloor>| l@.map_values(|f: AbyssFloor| floor_view(f)))
}

/// The dataset assembled from the monsters gathered per floor.
pub fn build_dataset(
    floors: Vec<FloorGroup>,
    floor_names: &Vec<(u32, u32, String)>,
    season_names: &HashMap<u32, String>,
) -> (r: AbyssMonsterDataset)
    ensures
        dataset_view(r) == built_dataset(
            floors@.map_values(|g: FloorGroup| group_view(g)),
            floor_names_view(floor_names@),
            season_names_view(season_names@),
        ),
        well_ordered(r),
{
    let ghost given = floors@.map_values(|g: FloorGroup| group_view(g));
    let mut input = floors;
    let mut keys: Vec<u32> = Vec::new();
    let mut lists: Vec<Vec<AbyssFloor>> = Vec::new();
    let ghost mut k: int = 0;
    proof {
        assert(given.take(0) =~= Seq::<(u32, u32, Seq<EntryView>)>::empty());
        assert(input@.map_values(|g: FloorGroup| group_view(g)) =~= given.skip(0));
        assert(floor_lists_view(lists@) =~= Seq::<Seq<FloorView>>::empty());
    }
    while input.len() > 0
        invariant
            0 <= k <= given.len(),
            input@.map_values(|g: FloorGroup| group_view(g)) == given.skip(k),
            keys@.len() == lists@.len(),
            forall|a: int, b: int| 0 <= a < lists@.len() && 0 <= b < lists@[a]@.len() ==> (
            #[trigger] lists@[a]@[b]).season == keys@[a] && sorted_by_rank(lists@[a]@[b].monsters@),
            season_groups(built_floors(given.take(k), floor_names_view(floor_names@), season_names_view(season_names@))) == (Groups {
                keys: keys@,
                lists: floor_lists_view(lists@),
            }),
        decreases input.len(),
    {
        let ghost before = input@;
        let group = input.remove(0);
        proof {
            let mapped = before.map_values(|g: FloorGroup| group_view(g));
            assert(mapped.len() == before.len());
            assert(mapped == given.skip(k));
            assert(k < given.len());
            assert(mapped[0] == group_view(group));
            assert(input@ =~= before.drop_first());
            assert(group_view(group) == given[k]);
            assert(input@.map_values(|g: FloorGroup| group_view(g)) =~= mapped.drop_first());
            assert(mapped.drop_first() =~= given.skip(k + 1));
            assert(given.take(k + 1).drop_last() =~= given.take(k));
            assert(given.take(k + 1).last() == given[k]);
        }
        if is_supported_abyss_season(group.season) {
            let ghost unsorted = group.monsters@;
            let monsters = sort_by_rank(group.monsters);
            proof {
                lemma_sorted_entry_views(unsorted);
            }
            let floor = AbyssFloor {
                season: group.season,
                season_name: season_name_exec(season_names, group.season),
                floor: group.floor,
                name: floor_name_exec(floor_names, group.season, group.floor),
                monsters,
            };
            let ghost g0 = Groups { keys: keys@, lists: floor_lists_view(lists@) };
            proof {
                let fv = FloorView {
                    season: group.season,
                    season_name: season_name_of(season_names_view(season_names@), group.season),
                    floor: group.floor,
                    name: floor_name_of(floor_names_view(floor_names@), group.season, group.floor),
                    monsters: sort_by(given[k].2, entry_view_le()),
                };
                assert(floor_view(floor) == fv);
                let bf = built_floors(given.take(k), floor_names_view(floor_names@), season_names_view(season_names@));
                assert(built_floors(given.take(k + 1), floor_names_view(floor_names@), season_names_view(season_names@)) == bf.push(fv));
                assert(bf.push(fv).drop_last() =~= bf);
                assert(bf.push(fv).last() == fv);
                assert(season_groups(bf.push(fv)) == add_to_group(g0, group.season, fv));
            }
            match find_key(&keys, group.season) {
                Some(i) => {
                    let ghost old_lists = lists@;
                    proof {
                    }
                    push_into(&mut lists, i, floor);
                    proof {
                        assert forall|a: int, b: int| 0 <= a < lists@.len() && 0 <= b < lists@[a]@.len() implies (
                        #[trigger] lists@[a]@[b]).season == keys@[a] && sorted_by_rank(lists@[a]@[b].monsters@) by {
                            if a == i && b == old_lists[a]@.len() {
                                assert(lists@[a]@[b] == floor);
                            } else if a == i {
                                assert(lists@[a]@[b] == old_lists[a]@[b]);
                            } else {
                                assert(lists@[a] == old_lists[a]);
                            }
                        }
                    }
                    proof {
                        assert(floor_lists_view(lists@) =~= g0.lists.update(
                            i as int,
                            g0.lists[i as int].push(floor_view(floor)),
                        )) by {
                            assert forall|j: int| 0 <= j < lists@.len() implies #[trigger] floor_lists_view(
                                lists@,
                            )[j] == g0.lists.update(i as int, g0.lists[i as int].push(floor_view(floor)))[j] by {
                                if j == i {
                                    assert(lists@[j]@.map_values(|f: AbyssFloor| floor_view(f)) =~= old_lists[j]@.map_values(
                                        |f: AbyssFloor| floor_view(f),
                                    ).push(floor_view(floor)));
                                }
                            }
                        }
                    }
                },
                None => {
                    let ghost old_lists = lists@;
                    keys.push(group.season);
                    let mut fresh: Vec<AbyssFloor> = Vec::new();
                    fresh.push(floor);
                    lists.push(fresh);
                    proof {
                        assert forall|a: int, b: int| 0 <= a < lists@.len() && 0 <= b < lists@[a]@.len() implies (
                        #[trigger] lists@[a]@[b]).season == keys@[a] && sorted_by_rank(lists@[a]@[b].monsters@) by {
                            if a < old_lists.len() {
                                assert(lists@[a] == old_lists[a]);
                            } else {
                                assert(lists@[a]@[b] == floor);
                            }
                        }
                    }
                    proof {
                        assert(fresh@.map_values(|f: AbyssFloor| floor_view(f)) =~= seq![floor_view(floor)]);
                        assert(floor_lists_view(lists@) =~= g0.lists.push(seq![floor_view(floor)]));
                    }
                },
            }
        } else {
            proof {
                assert(built_floors(given.take(k + 1), floor_names_view(floor_names@), season_names_view(season_names@)) == built_floors(
                    given.take(k),
                    floor_names_view(floor_names@),
                    season_names_view(season_names@),
                ));
            }
        }
        proof {
            k = k + 1;
        }
    }
    proof {
        assert(given.take(k) =~= given);
    }
    let ghost g = season_groups(built_floors(given, floor_names_view(floor_names@), season_names_view(season_names@)));
    assert(floor_lists_view(lists@).len() == lists@.len());
    let mut seasons: Vec<AbyssSeason> = Vec::new();
    let mut i: usize = 0;
    let n = keys.len();
    while i < n
        invariant
            n == keys@.len(),
            i <= n,
            keys@.len() == g.keys.len(),
            lists@.len() == n - i,
            g.keys == keys@,
            g.lists.len() == n,
            floor_lists_view(lists@) == g.lists.skip(i as int),
            seasons@.map_values(|s: AbyssSeason| season_view(s)) == grouped_seasons(g, season_names_view(season_names@)).take(
                i as int,
            ),
            forall|a: int, b: int| 0 <= a < lists@.len() && 0 <= b < lists@[a]@.len() ==> (
            #[trigger] lists@[a]@[b]).season == keys@[a + i] && sorted_by_rank(lists@[a]@[b].monsters@),
            forall|j: int| 0 <= j < seasons@.len() ==> season_ordered(#[trigger] seasons@[j]),
        decreases n - i,
    {
        let ghost before = lists@;
        let list = lists.remove(0);
        proof {
            let mapped = floor_lists_view(before);
            assert(mapped.len() == before.len());
            assert(mapped == g.lists.skip(i as int));
            assert(mapped[0] == list@.map_values(|f: AbyssFloor| floor_view(f)));
            assert(lists@ =~= before.drop_first());
            assert(floor_lists_view(lists@) =~= mapped.drop_first());
            assert(mapped.drop_first() =~= g.lists.skip(i + 1));
            assert(list@.map_values(|f: AbyssFloor| floor_view(f)) == g.lists[i as int]);
        }
        let ghost unsorted = list@;
        proof {
            assert forall|a: int, b: int| 0 <= a < lists@.len() && 0 <= b < lists@[a]@.len() implies (
            #[trigger] lists@[a]@[b]).season == keys@[a + i + 1] && sorted_by_rank(lists@[a]@[b].monsters@) by {
                assert(lists@[a] == before[a + 1]);
            }
            assert forall|b: int| 0 <= b < unsorted.len() implies (#[trigger] unsorted[b]).season == keys@[i as int]
                && sorted_by_rank(unsorted[b].monsters@) by {
                assert(before[0] == list);
                assert(before[0]@[b] == unsorted[b]);
            }
        }
        let sorted = sort_by_rank(list);
        proof {
            lemma_sorted_floor_views(unsorted);
            lemma_arrangement_elements(sorted@, unsorted);
            assert forall|j: int| 0 <= j < sorted@.len() implies (#[trigger] sorted@[j]).season == keys@[i as int]
                && sorted_by_rank(sorted@[j].monsters@) by {
                assert(unsorted.contains(sorted@[j]));
            }
        }
        let season = AbyssSeason {
            season: keys[i],
            name: season_name_exec(season_names, keys[i]),
            floors: sorted,
        };
        let ghost before_seasons = seasons@;
        seasons.push(season);
        proof {
            assert(season_view(season) == grouped_seasons(g, season_names_view(season_names@))[i as int]);
            assert(seasons@.map_values(|s: AbyssSeason| season_view(s)) =~= before_seasons.map_values(
                |s: AbyssSeason| season_view(s),
            ).push(season_view(season)));
            assert(seasons@.map_values(|s: AbyssSeason| season_view(s)) =~= grouped_seasons(
                g,
                season_names_view(season_names@),
            ).take(i + 1));
        }
        i += 1;
    }
    proof {
        assert(grouped_seasons(g, season_names_view(season_names@)).take(n as int) =~= grouped_seasons(g, season_names_view(season_names@)));
    }
    let ghost unsorted = seasons@;
    let sorted = sort_by_rank(seasons);
    proof {
        lemma_sorted_season_views(unsorted);
        lemma_arrangement_elements(sorted@, unsorted);
        assert forall|j: int| 0 <= j < sorted@.len() implies season_ordered(#[trigger] sorted@[j]) by {
            assert(unsorted.contains(sorted@[j]));
        }
    }
    AbyssMonsterDataset { seasons: sorted }
}

// ---------------------------------------------------------------------------
// The static monster table
// ---------------------------------------------------------------------------

/// What the static monster table says of a monster.
#[derive(Clone, Debug)]
pub struct StaticMonsterInfo {
    pub name: Option<String>,
}

/// A row's display name: its comment when not blank, else its culture
/// invariant text name when not blank.
pub open spec fn static_name(row: JsonValue) -> Option<Seq<char>> {
    match non_blank(field_text(row, "Comment"@)) {
        Some(n) => Some(n),
        None => non_blank(
            match member(row, "TextName"@) {
                Some(t) => field_text(t, "CultureInvariantString"@),
                None => None,
            },
        ),
    }
}

/// The string elements of an array, in order.
pub open spec fn string_elements(values: Seq<JsonValue>) -> Seq<Seq<char>>
    decreases values.len(),
{
    if values.len() == 0 {
        Seq::empty()
    } else {
        match values.last() {
            JsonValue::String(s) => string_elements(values.drop_last()).push(s@),
            _ => string_elements(values.drop_last()),
        }
    }
}

/// `keys` extended by the lookup keys of each tag, in order.
pub open spec fn with_tag_keys(keys: Seq<Seq<char>>, tags: Seq<Seq<char>>) -> Seq<Seq<char>>
    decreases tags.len(),
{
    if tags.len() == 0 {
        keys
    } else {
        push_all(with_tag_keys(keys, tags.drop_last()), spec_monster_lookup_keys(tags.last()))
    }
}

/// The keys a static row is found by: those of its row key, then those of
/// each of its string tags.
pub open spec fn row_lookup_keys(key: Seq<char>, row: JsonValue) -> Seq<Seq<char>> {
    match field_array(row, "Tags"@) {
        Some(tags) => with_tag_keys(spec_monster_lookup_keys(key), string_elements(tags)),
        None => spec_monster_lookup_keys(key),
    }
}

pub open spec fn has_index_key(index: Seq<(Seq<char>, Option<Seq<char>>)>, k: Seq<char>) -> bool {
    exists|i: int| 0 <= i < index.len() && (#[trigger] index[i]).0 == k
}

/// `index` with `name` filed under each of `keys` that it does not hold yet.
pub open spec fn index_add(
    index: Seq<(Seq<char>, Option<Seq<char>>)>,
    keys: Seq<Seq<char>>,
    name: Option<Seq<char>>,
) -> Seq<(Seq<char>, Option<Seq<char>>)>
    decreases keys.len(),
{
    if keys.len() == 0 {
        index
    } else {
        let next = if has_index_key(index, keys[0]) {
            index
        } else {
            index.push((keys[0], name))
        };
        index_add(next, keys.drop_first(), name)
    }
}

/// The static index of the table's rows: each lookup key of a row names the
/// row's display name, the first row to use a key keeping it.
pub open spec fn static_index(rows: Seq<(String, JsonValue)>) -> Seq<(Seq<char>, Option<Seq<char>>)>
    decreases rows.len(),
{
    if rows.len() == 0 {
        Seq::empty()
    } else {
        let row = rows.last();
        index_add(static_index(rows.drop_last()), row_lookup_keys(row.0@, row.1), static_name(row.1))
    }
}

pub open spec fn index_view(index: Seq<(String, StaticMonsterInfo)>) -> Seq<(Seq<char>, Option<Seq<char>>)> {
    index.map_values(|e: (String, StaticMonsterInfo)| (e.0@, opt_view(e.1.name)))
}

fn copy_info(info: &StaticMonsterInfo) -> (r: StaticMonsterInfo)
    ensures
        opt_view(r.name) == opt_view(info.name),
{
    match &info.name {
        Some(n) => StaticMonsterInfo { name: Some(n.clone()) },
        None => StaticMonsterInfo { name: None },
    }
}

/// The position of `key` in the index.
fn index_position(index: &Vec<(String, StaticMonsterInfo)>, key: &String) -> (r: Option<usize>)
    ensures
        r is None <==> !has_index_key(index_view(index@), key@),
        r matches Some(i) ==> i < index@.len() && index_view(index@)[i as int].0 == key@ && forall|j: int|
            0 <= j < i ==> #[trigger] index_view(index@)[j].0 != key@,
{
    let mut i: usize = 0;
    while i < index.len()
        invariant
            i <= index@.len(),
            forall|j: int| 0 <= j < i ==> #[trigger] index_view(index@)[j].0 != key@,
        decreases index.len() - i,
    {
        if index[i].0 == *key {
            assert(index_view(index@)[i as int].0 == key@);
            return Some(i);
        }
        i += 1;
    }
    proof {
        if has_index_key(index_view(index@), key@) {
            let w = choose|w: int| 0 <= w < index_view(index@).len() && (#[trigger] index_view(index@)[w]).0 == key@;
            assert(index_view(index@)[w].0 != key@);
        }
    }
    None
}

fn index_add_exec(index: &mut Vec<(String, StaticMonsterInfo)>, keys: &Vec<String>, info: &StaticMonsterInfo)
    ensures
        index_view(final(index)@) == index_add(index_view(old(index)@), texts(keys@), opt_view(info.name)),
{
    let mut i: usize = 0;
    assert(texts(keys@).skip(0) =~= texts(keys@));
    while i < keys.len()
        invariant
            i <= keys@.len(),
            index_add(index_view(old(index)@), texts(keys@), opt_view(info.name)) == index_add(
                index_view(index@),
                texts(keys@).skip(i as int),
                opt_view(info.name),
            ),
        decreases keys.len() - i,
    {
        let ghost rest = texts(keys@).skip(i as int);
        assert(rest[0] == keys@[i as int]@);
        assert(rest.drop_first() =~= texts(keys@).skip(i + 1));
        if index_position(index, &keys[i]).is_none() {
            let ghost before = index_view(index@);
            index.push((keys[i].clone(), copy_info(info)));
            assert(index_view(index@) =~= before.push((keys@[i as int]@, opt_view(info.name))));
        }
        i += 1;
    }
    assert(texts(keys@).skip(i as int) =~= Seq::<Seq<char>>::empty());
}

fn static_name_exec(row: &JsonValue) -> (r: Option<String>)
    ensures
        opt_view(r) == static_name(*row),
{
    match non_blank_exec(text_field(row, "Comment")) {
        Some(n) => Some(n),
        None => {
            let cultural = match value_member(row, "TextName") {
                Some(t) => text_field(t, "CultureInvariantString"),
                None => None,
            };
            non_blank_exec(cultural)
        },
    }
}

/// The lookup keys of a static row (`static_monster_lookup_keys`).
pub fn static_monster_lookup_keys(key: &str, row: &JsonValue) -> (r: Vec<String>)
    ensures
        texts(r@) == row_lookup_keys(key@, *row),
{
    let mut keys = monster_lookup_keys(key);
    let tags = match array_field(row, "Tags") {
        Some(t) => t,
        None => return keys,
    };
    let ghost base = texts(keys@);
    let mut i: usize = 0;
    assert(tags@.take(0) =~= Seq::<JsonValue>::empty());
    while i < tags.len()
        invariant
            i <= tags@.len(),
            texts(keys@) == with_tag_keys(base, string_elements(tags@.take(i as int))),
        decreases tags.len() - i,
    {
        assert(tags@.take(i + 1).drop_last() =~= tags@.take(i as int));
        assert(tags@.take(i + 1).last() == tags@[i as int]);
        match &tags[i] {
            JsonValue::String(tag) => {
                let tag_keys = monster_lookup_keys(tag.as_str());
                let ghost before = texts(keys@);
                let mut j: usize = 0;
                assert(texts(tag_keys@).skip(0) =~= texts(tag_keys@));
                while j < tag_keys.len()
                    invariant
                        j <= tag_keys@.len(),
                        push_all(before, texts(tag_keys@)) == push_all(
                            texts(keys@),
                            texts(tag_keys@).skip(j as int),
                        ),
                    decreases tag_keys.len() - j,
                {
                    let ghost rest = texts(tag_keys@).skip(j as int);
                    assert(rest[0] == tag_keys@[j as int]@);
                    assert(rest.drop_first() =~= texts(tag_keys@).skip(j + 1));
                    push_unique_key(&mut keys, tag_keys[j].clone());
                    j += 1;
                }
                assert(texts(tag_keys@).skip(j as int) =~= Seq::<Seq<char>>::empty());
                assert(string_elements(tags@.take(i + 1)) == string_elements(tags@.take(i as int)).push(
                    tag@,
                ));
                let ghost el = string_elements(tags@.take(i as int));
                assert(el.push(tag@).drop_last() =~= el);
                assert(el.push(tag@).last() == tag@);
                assert(with_tag_keys(base, el.push(tag@)) == push_all(
                    with_tag_keys(base, el),
                    spec_monster_lookup_keys(tag@),
                ));
            },
            _ => {
                assert(string_elements(tags@.take(i + 1)) == string_elements(tags@.take(i as int)));
            },
        }
        i += 1;
    }
    assert(tags@.take(tags@.len() as int) =~= tags@);
    keys
}

/// Files each row of the static table under its lookup keys.
pub fn build_static_index(rows: &Vec<(String, JsonValue)>) -> (r: Vec<(String, StaticMonsterInfo)>)
    ensures
        index_view(r@) == static_index(rows@),
{
    let mut index: Vec<(String, StaticMonsterInfo)> = Vec::new();
    let mut i: usize = 0;
    assert(rows@.take(0) =~= Seq::<(String, JsonValue)>::empty());
    assert(index_view(index@) =~= Seq::<(Seq<char>, Option<Seq<char>>)>::empty());
    while i < rows.len()
        invariant
            i <= rows@.len(),
            index_view(index@) == static_index(rows@.take(i as int)),
        decreases rows.len() - i,
    {
        assert(rows@.take(i + 1).drop_last() =~= rows@.take(i as int));
        assert(rows@.take(i + 1).last() == rows@[i as int]);
        let info = StaticMonsterInfo { name: static_name_exec(&rows[i].1) };
        let keys = static_monster_lookup_keys(rows[i].0.as_str(), &rows[i].1);
        index_add_exec(&mut index, &keys, &info);
        i += 1;
    }
    assert(rows@.take(rows@.len() as int) =~= rows@);
    index
}

/// The name filed under the first of `keys` that the index holds.
pub open spec fn static_lookup(index: Seq<(Seq<char>, Option<Seq<char>>)>, keys: Seq<Seq<char>>) -> Option<
    Option<Seq<char>>,
>
    decreases keys.len(),
{
    if keys.len() == 0 {
        None
    } else if has_index_key(index, keys[0]) {
        Some(index[choose|i: int| 0 <= i < index.len() && index[i].0 == keys[0] && forall|j: int| 0 <= j < i ==> index[j].0 != keys[0]].1)
    } else {
        static_lookup(index, keys.drop_first())
    }
}

/// The static entry of a monster id, found by its lookup keys in order.
pub fn lookup_static_monster<'a>(index: &'a Vec<(String, StaticMonsterInfo)>, monster_id: &str) -> (r: Option<
    &'a StaticMonsterInfo,
>)
    ensures
        r is None <==> static_lookup(index_view(index@), spec_monster_lookup_keys(monster_id@)) is None,
        r matches Some(info) ==> static_lookup(index_view(index@), spec_monster_lookup_keys(monster_id@))
            == Some(opt_view(info.name)),
{
    let keys = monster_lookup_keys(monster_id);
    let ghost iv = index_view(index@);
    let mut i: usize = 0;
    assert(texts(keys@).skip(0) =~= texts(keys@));
    while i < keys.len()
        invariant
            i <= keys@.len(),
            iv == index_view(index@),
            texts(keys@) == spec_monster_lookup_keys(monster_id@),
            static_lookup(iv, texts(keys@)) == static_lookup(iv, texts(keys@).skip(i as int)),
        decreases keys.len() - i,
    {
        let ghost rest = texts(keys@).skip(i as int);
        assert(rest[0] == keys@[i as int]@);
        match index_position(index, &keys[i]) {
            Some(p) => {
                proof {
                    assert(iv[p as int].0 == rest[0]);
                    assert(has_index_key(iv, rest[0]));
                    assert(iv[p as int].1 == opt_view(index@[p as int].1.name));
                    let w = choose|w: int| 0 <= w < iv.len() && iv[w].0 == rest[0] && forall|j: int| 0 <= j < w ==> iv[j].0 != rest[0];
                    if w < p {
                        assert(iv[w].0 != rest[0]);
                    } else if w > p {
                        assert(iv[p as int].0 != rest[0]);
                    }
                    assert(static_lookup(iv, rest) == Some(iv[w].1));
                }
                return Some(&index[p].1);
            },
            None => {},
        }
        assert(rest.drop_first() =~= texts(keys@).skip(i + 1));
        i += 1;
    }
    assert(texts(keys@).skip(i as int) =~= Seq::<Seq<char>>::empty());
    None
}

// ---------------------------------------------------------------------------
// The floor summary rows
// ---------------------------------------------------------------------------

/// A half or wave number in a pool pack id, or "-" when there is none.
pub open spec fn number_or_dash(v: Option<u32>) -> Seq<char> {
    match v {
        Some(n) => decimal(n as nat),
        None => "-"@,
    }
}

/// A summary monster's pack id: "<pool>:<half>:<wave>:<attribute id>:<index>"
/// for a monster of a pool, else its attribute id.
pub open spec fn summary_pack_id(
    pool: Option<Seq<char>>,
    half: Option<u32>,
    wave: Option<u32>,
    attribute_id: Seq<char>,
    index: nat,
) -> Seq<char> {
    match pool {
        Some(p) => p + ":"@ + number_or_dash(half) + ":"@ + number_or_dash(wave) + ":"@ + attribute_id
            + ":"@ + decimal(index),
        None => attribute_id,
    }
}

/// A summary monster's id: from its attribute id, else from its class path,
/// else the attribute id itself.
pub open spec fn summary_monster_id(attribute_id: Seq<char>, monster: JsonValue) -> Seq<char> {
    match spec_parse_abyss_attribute_monster_id(attribute_id) {
        Some(m) => m,
        None => match spec_monster_id_from_class_path(
            match field_text(monster, "class"@) {
                Some(c) => c,
                None => Seq::empty(),
            },
        ) {
            Some(m) => m,
            None => attribute_id,
        },
    }
}

/// The context a summary row gives its monsters.
pub struct RowContext {
    pub pool: Option<Seq<char>>,
    pub half: Option<u32>,
    pub wave: Option<u32>,
}

/// The entry of the `index`-th monster of a summary row, when it has an
/// attribute id: named by its own name, else the static table, else its id.
pub open spec fn summary_entry(
    monster: JsonValue,
    index: nat,
    ctx: RowContext,
    statics: Seq<(Seq<char>, Option<Seq<char>>)>,
) -> Option<EntryView> {
    match field_text(monster, "attribute_id"@) {
        Some(attribute_id) => {
            let monster_id = summary_monster_id(attribute_id, monster);
            Some(
                EntryView {
                    pack_id: summary_pack_id(ctx.pool, ctx.half, ctx.wave, attribute_id, index),
                    attribute_id,
                    monster_pool_id: ctx.pool,
                    monster_id,
                    name: match non_blank(field_text(monster, "name"@)) {
                        Some(n) => n,
                        None => match static_lookup(statics, spec_monster_lookup_keys(monster_id)) {
                            Some(Some(n)) => n,
                            _ => monster_id,
                        },
                    },
                    count: match field_u32(monster, "count"@) {
                        Some(c) => if c < 1 {
                            1
                        } else {
                            c
                        },
                        None => 1,
                    },
                    level: field_u32(monster, "level"@),
                    half: ctx.half,
                    wave: ctx.wave,
                    is_boss: field_bool(monster, "is_boss"@),
                },
            )
        },
        None => None,
    }
}

/// A monster of a summary row gives an entry exactly when its
/// `attribute_id` is a string. The entry keeps that attribute id, takes the
/// row's pool, half and wave, is a boss exactly when the monster's
/// `is_boss` is `true`, counts at least one monster (its `count` when that
/// is a positive `u32`) and keeps its `level` when that is a `u32` number.
pub proof fn law_summary_entry_fields(
    monster: JsonValue,
    index: nat,
    ctx: RowContext,
    statics: Seq<(Seq<char>, Option<Seq<char>>)>,
)
    ensures
        summary_entry(monster, index, ctx, statics) is Some <==> (member(monster, "attribute_id"@) matches Some(
            JsonValue::String(_),
        )),
        summary_entry(monster, index, ctx, statics) matches Some(e) ==> {
            &&& (member(monster, "attribute_id"@) matches Some(JsonValue::String(a)) && a@ == e.attribute_id)
            &&& e.monster_pool_id == ctx.pool
            &&& e.half == ctx.half
            &&& e.wave == ctx.wave
            &&& (e.is_boss <==> member(monster, "is_boss"@) == Some(JsonValue::Bool(true)))
            &&& e.count >= 1
            &&& (member(monster, "count"@) matches Some(JsonValue::Number(JsonNumber::PosInt(n))) ==> (1 <= n
                <= u32::MAX ==> e.count == n))
            &&& (member(monster, "level"@) matches Some(JsonValue::Number(JsonNumber::PosInt(n))) ==> (n
                <= u32::MAX ==> e.level == Some(n as u32)))
            &&& (member(monster, "name"@) matches Some(JsonValue::String(n)) ==> (!is_blank(n@) ==> e.name
                == n@))
            &&& (ctx.pool is None ==> e.pack_id == e.attribute_id)
            &&& (ctx.pool matches Some(p) ==> {
                let head = p + ":"@;
                let tail = ":"@ + decimal(index);
                &&& e.pack_id.len() >= head.len() + tail.len()
                &&& e.pack_id.take(head.len() as int) == head
                &&& e.pack_id.skip(e.pack_id.len() - tail.len()) == tail
            })
        },
{
    if let Some(attribute_id) = field_text(monster, "attribute_id"@) {
        if let Some(p) = ctx.pool {
            let head = p + ":"@;
            let tail = ":"@ + decimal(index);
            let mid = number_or_dash(ctx.half) + ":"@ + number_or_dash(ctx.wave) + ":"@ + attribute_id;
            let id = summary_pack_id(ctx.pool, ctx.half, ctx.wave, attribute_id, index);
            assert(id =~= head + mid + tail);
            assert(id.take(head.len() as int) =~= head);
            assert(id.skip(id.len() - tail.len()) =~= tail);
        }
    }
}

/// The groups with each monster of a row that has an entry added under `key`.
pub open spec fn add_row_monsters(
    g: Groups<(u32, u32), EntryView>,
    key: (u32, u32),
    monsters: Seq<JsonValue>,
    ctx: RowContext,
    statics: Seq<(Seq<char>, Option<Seq<char>>)>,
) -> Groups<(u32, u32), EntryView>
    decreases monsters.len(),
{
    if monsters.len() == 0 {
        g
    } else {
        let before = add_row_monsters(g, key, monsters.drop_last(), ctx, statics);
        match summary_entry(monsters.last(), (monsters.len() - 1) as nat, ctx, statics) {
            Some(e) => add_to_group(before, key, e),
            None => before,
        }
    }
}

pub open spec fn has_floor_name(names: Seq<(u32, u32, Seq<char>)>, season: u32, floor: u32) -> bool {
    exists|i: int| 0 <= i < names.len() && (#[trigger] names[i]).0 == season && names[i].1 == floor
}

/// The monsters gathered so far, and the floor names.
pub struct SummaryState {
    pub groups: Groups<(u32, u32), EntryView>,
    pub names: Seq<(u32, u32, Seq<char>)>,
}

/// One summary row read into the state: a row needs an abyss group, a level
/// id and (for its monsters) a monster array; a level name that is not
/// blank names the floor unless it already has a name.
pub open spec fn summary_step(
    st: SummaryState,
    row: JsonValue,
    statics: Seq<(Seq<char>, Option<Seq<char>>)>,
) -> SummaryState {
    match field_text(row, "abyss"@) {
        None => st,
        Some(abyss) => match spec_parse_abyss_group(abyss) {
            None => st,
            Some(season) => match field_u32(row, "level_id"@) {
                None => st,
                Some(floor) => {
                    let names = match non_blank(field_text(row, "level_name"@)) {
                        Some(n) => if has_floor_name(st.names, season, floor) {
                            st.names
                        } else {
                            st.names.push((season, floor, n))
                        },
                        None => st.names,
                    };
                    let ctx = RowContext {
                        pool: field_text(row, "monster_pool_id"@),
                        half: match field_text(row, "route"@) {
                            Some(r) => spec_parse_abyss_route_half(r),
                            None => None,
                        },
                        wave: field_u32(row, "wave"@),
                    };
                    match field_array(row, "monsters"@) {
                        Some(monsters) => SummaryState {
                            groups: add_row_monsters(st.groups, (season, floor), monsters, ctx, statics),
                            names,
                        },
                        None => SummaryState { groups: st.groups, names },
                    }
                },
            },
        },
    }
}

pub open spec fn summary_state(rows: Seq<JsonValue>, statics: Seq<(Seq<char>, Option<Seq<char>>)>) -> SummaryState
    decreases rows.len(),
{
    if rows.len() == 0 {
        SummaryState { groups: Groups { keys: Seq::empty(), lists: Seq::empty() }, names: Seq::empty() }
    } else {
        summary_step(summary_state(rows.drop_last(), statics), rows.last(), statics)
    }
}

pub open spec fn group_triples(g: Groups<(u32, u32), EntryView>) -> Seq<(u32, u32, Seq<EntryView>)> {
    Seq::new(g.keys.len(), |i: int| (g.keys[i].0, g.keys[i].1, g.lists[i]))
}

/// The dataset of the summary rows.
pub open spec fn summary_dataset(
    rows: Seq<JsonValue>,
    statics: Seq<(Seq<char>, Option<Seq<char>>)>,
    season_names: Map<u32, Seq<char>>,
) -> Seq<SeasonView> {
    let st = summary_state(rows, statics);
    built_dataset(group_triples(st.groups), st.names, season_names)
}

fn push_number_or_dash(out: &mut String, v: Option<u32>)
    ensures
        final(out)@ == old(out)@ + number_or_dash(v),
{
    match v {
        Some(n) => push_decimal(out, n as u64),
        None => push_str(out, "-"),
    }
}

fn summary_pack_id_exec(pool: &Option<String>, half: Option<u32>, wave: Option<u32>, attribute_id: &String, index: usize) -> (r: String)
    ensures
        r@ == summary_pack_id(opt_view(*pool), half, wave, attribute_id@, index as nat),
{
    match pool {
        Some(p) => {
            let mut out = p.clone();
            push_str(&mut out, ":");
            push_number_or_dash(&mut out, half);
            push_str(&mut out, ":");
            push_number_or_dash(&mut out, wave);
            push_str(&mut out, ":");
            push_str(&mut out, attribute_id.as_str());
            push_str(&mut out, ":");
            push_decimal(&mut out, index as u64);
            out
        },
        None => attribute_id.clone(),
    }
}

fn summary_monster_id_exec(attribute_id: &String, monster: &JsonValue) -> (r: String)
    ensures
        r@ == summary_monster_id(attribute_id@, *monster),
{
    match parse_abyss_attribute_monster_id(attribute_id.as_str()) {
        Some(m) => m,
        None => {
            let class = match text_field(monster, "class") {
                Some(c) => c,
                None => String::new(),
            };
            match monster_id_from_class_path(class.as_str()) {
                Some(m) => m,
                None => attribute_id.clone(),
            }
        },
    }
}

fn summary_entry_exec(
    monster: &JsonValue,
    index: usize,
    pool: &Option<String>,
    half: Option<u32>,
    wave: Option<u32>,
    statics: &Vec<(String, StaticMonsterInfo)>,
) -> (r: Option<AbyssMonsterEntry>)
    ensures
        r is None <==> summary_entry(*monster, index as nat, RowContext { pool: opt_view(*pool), half, wave }, index_view(statics@)) is None,
        r matches Some(e) ==> summary_entry(
            *monster,
            index as nat,
            RowContext { pool: opt_view(*pool), half, wave },
            index_view(statics@),
        ) == Some(entry_view(e)),
{
    let attribute_id = match text_field(monster, "attribute_id") {
        Some(a) => a,
        None => return None,
    };
    let monster_id = summary_monster_id_exec(&attribute_id, monster);
    let name = match non_blank_exec(text_field(monster, "name")) {
        Some(n) => n,
        None => match lookup_static_monster(statics, monster_id.as_str()) {
            Some(info) => match &info.name {
                Some(n) => n.clone(),
                None => monster_id.clone(),
            },
            None => monster_id.clone(),
        },
    };
    let count = match u32_field(monster, "count") {
        Some(c) => if c < 1 {
            1
        } else {
            c
        },
        None => 1,
    };
    let pack_id = summary_pack_id_exec(pool, half, wave, &attribute_id, index);
    let monster_pool_id = match pool {
        Some(p) => Some(p.clone()),
        None => None,
    };
    Some(
        AbyssMonsterEntry {
            pack_id,
            attribute_id,
            monster_pool_id,
            monster_id,
            name,
            count,
            level: u32_field(monster, "level"),
            half,
            wave,
            is_boss: bool_field(monster, "is_boss"),
        },
    )
}

fn find_floor_key(keys: &Vec<(u32, u32)>, k: (u32, u32)) -> (r: Option<usize>)
    ensures
        r is None <==> first_index_of(keys@, k) is None,
        r matches Some(i) ==> first_index_of(keys@, k) == Some(i as int) && i < keys@.len(),
{
    let mut i: usize = 0;
    while i < keys.len()
        invariant
            i <= keys@.len(),
            forall|j: int| 0 <= j < i ==> keys@[j] != k,
        decreases keys.len() - i,
    {
        if keys[i].0 == k.0 && keys[i].1 == k.1 {
            proof {
                lemma_first_index_of(keys@, k, i as int);
            }
            return Some(i);
        }
        i += 1;
    }
    proof {
        if keys@.contains(k) {
            let w = choose|w: int| 0 <= w < keys@.len() && keys@[w] == k;
            assert(keys@[w] != k);
        }
    }
    None
}

pub open spec fn entry_lists_view(lists: Seq<Vec<AbyssMonsterEntry>>) -> Seq<Seq<EntryView>> {
    lists.map_values(|l: Vec<AbyssMonsterEntry>| l@.map_values(|e: AbyssMonsterEntry| entry_view(e)))
}

/// Adds `e` to the group of `key`.
fn add_entry(keys: &mut Vec<(u32, u32)>, lists: &mut Vec<Vec<AbyssMonsterEntry>>, key: (u32, u32), e: AbyssMonsterEntry)
    requires
        old(keys)@.len() == old(lists)@.len(),
    ensures
        final(keys)@.len() == final(lists)@.len(),
        (Groups { keys: final(keys)@, lists: entry_lists_view(final(lists)@) }) == add_to_group(
            Groups { keys: old(keys)@, lists: entry_lists_view(old(lists)@) },
            key,
            entry_view(e),
        ),
{
    let ghost g0 = Groups { keys: keys@, lists: entry_lists_view(lists@) };
    let ghost ev = entry_view(e);
    match find_floor_key(keys, key) {
        Some(i) => {
            let ghost old_lists = lists@;
            push_into(lists, i, e);
            proof {
                assert(entry_lists_view(lists@) =~= g0.lists.update(i as int, g0.lists[i as int].push(ev))) by {
                    assert forall|j: int| 0 <= j < lists@.len() implies #[trigger] entry_lists_view(lists@)[j]
                        == g0.lists.update(i as int, g0.lists[i as int].push(ev))[j] by {
                        if j == i {
                            assert(lists@[j]@.map_values(|e: AbyssMonsterEntry| entry_view(e)) =~= old_lists[j]@.map_values(
                                |e: AbyssMonsterEntry| entry_view(e),
                            ).push(ev));
                        }
                    }
                }
            }
        },
        None => {
            keys.push(key);
            let mut fresh: Vec<AbyssMonsterEntry> = Vec::new();
            fresh.push(e);
            let ghost before = lists@;
            lists.push(fresh);
            proof {
                assert(fresh@.map_values(|e: AbyssMonsterEntry| entry_view(e)) =~= seq![ev]);
                assert(entry_lists_view(lists@) =~= entry_lists_view(before).push(seq![ev]));
            }
        },
    }
}

fn has_floor_name_exec(names: &Vec<(u32, u32, String)>, season: u32, floor: u32) -> (r: bool)
    ensures
        r == has_floor_name(floor_names_view(names@), season, floor),
{
    let ghost nv = floor_names_view(names@);
    let mut i: usize = 0;
    while i < names.len()
        invariant
            i <= names@.len(),
            nv == floor_names_view(names@),
            forall|j: int| 0 <= j < i ==> !((#[trigger] nv[j]).0 == season && nv[j].1 == floor),
        decreases names.len() - i,
    {
        if names[i].0 == season && names[i].1 == floor {
            assert(nv[i as int].0 == season && nv[i as int].1 == floor);
            return true;
        }
        i += 1;
    }
    false
}

/// The dataset of the floor summary rows: each monster filed under its
/// floor, named and counted, and the floors named by the rows.
pub fn build_dataset_from_summary(
    summary_rows: &Vec<JsonValue>,
    static_index: &Vec<(String, StaticMonsterInfo)>,
    season_names: &HashMap<u32, String>,
) -> (r: AbyssMonsterDataset)
    ensures
        dataset_view(r) == summary_dataset(summary_rows@, index_view(static_index@), season_names_view(season_names@)),
        well_ordered(r),
{
    let ghost statics = index_view(static_index@);
    let mut keys: Vec<(u32, u32)> = Vec::new();
    let mut lists: Vec<Vec<AbyssMonsterEntry>> = Vec::new();
    let mut names: Vec<(u32, u32, String)> = Vec::new();
    let mut r: usize = 0;
    proof {
        assert(summary_rows@.take(0) =~= Seq::<JsonValue>::empty());
        assert(entry_lists_view(lists@) =~= Seq::<Seq<EntryView>>::empty());
        assert(floor_names_view(names@) =~= Seq::<(u32, u32, Seq<char>)>::empty());
    }
    while r < summary_rows.len()
        invariant
            r <= summary_rows@.len(),
            statics == index_view(static_index@),
            keys@.len() == lists@.len(),
            summary_state(summary_rows@.take(r as int), statics) == (SummaryState {
                groups: Groups { keys: keys@, lists: entry_lists_view(lists@) },
                names: floor_names_view(names@),
            }),
        decreases summary_rows.len() - r,
    {
        let row = &summary_rows[r];
        proof {
            assert(summary_rows@.take(r + 1).drop_last() =~= summary_rows@.take(r as int));
            assert(summary_rows@.take(r + 1).last() == *row);
        }
        let ghost st0 = SummaryState {
            groups: Groups { keys: keys@, lists: entry_lists_view(lists@) },
            names: floor_names_view(names@),
        };
        let abyss = match text_field(row, "abyss") {
            Some(a) => a,
            None => {
                r += 1;
                continue;
            },
        };
        let season = match parse_abyss_group(abyss.as_str()) {
            Some(s) => s,
            None => {
                r += 1;
                continue;
            },
        };
        let floor = match u32_field(row, "level_id") {
            Some(f) => f,
            None => {
                r += 1;
                continue;
            },
        };
        match non_blank_exec(text_field(row, "level_name")) {
            Some(n) => {
                if !has_floor_name_exec(&names, season, floor) {
                    let ghost before = names@;
                    names.push((season, floor, n));
                    assert(floor_names_view(names@) =~= floor_names_view(before).push((season, floor, n@)));
                }
            },
            None => {},
        }
        let half = match text_field(row, "route") {
            Some(route) => parse_abyss_route_half(route.as_str()),
            None => None,
        };
        let wave = u32_field(row, "wave");
        let pool = text_field(row, "monster_pool_id");
        let ghost ctx = RowContext { pool: opt_view(pool), half, wave };
        let monsters = match array_field(row, "monsters") {
            Some(m) => m,
            None => {
                r += 1;
                continue;
            },
        };
        let ghost g_start = Groups { keys: keys@, lists: entry_lists_view(lists@) };
        let mut i: usize = 0;
        assert(monsters@.take(0) =~= Seq::<JsonValue>::empty());
        while i < monsters.len()
            invariant
                i <= monsters@.len(),
                statics == index_view(static_index@),
                keys@.len() == lists@.len(),
                ctx == (RowContext { pool: opt_view(pool), half, wave }),
                add_row_monsters(g_start, (season, floor), monsters@.take(i as int), ctx, statics) == (Groups {
                    keys: keys@,
                    lists: entry_lists_view(lists@),
                }),
            decreases monsters.len() - i,
        {
            proof {
                let t = monsters@.take(i + 1);
                assert(t.drop_last() =~= monsters@.take(i as int));
                assert(t.last() == monsters@[i as int]);
                assert(t.len() - 1 == i);
            }
            match summary_entry_exec(&monsters[i], i, &pool, half, wave, static_index) {
                Some(e) => add_entry(&mut keys, &mut lists, (season, floor), e),
                None => {},
            }
            i += 1;
        }
        assert(monsters@.take(monsters@.len() as int) =~= monsters@);
        r += 1;
    }
    assert(summary_rows@.take(summary_rows@.len() as int) =~= summary_rows@);
    let ghost st = summary_state(summary_rows@, statics);
    let mut groups: Vec<FloorGroup> = Vec::new();
    let n = keys.len();
    let mut i: usize = 0;
    assert(entry_lists_view(lists@).len() == lists@.len());
    while i < n
        invariant
            n == keys@.len(),
            i <= n,
            lists@.len() == n - i,
            st.groups.keys == keys@,
            st.groups.lists.len() == n,
            entry_lists_view(lists@) == st.groups.lists.skip(i as int),
            groups@.map_values(|g: FloorGroup| group_view(g)) == group_triples(st.groups).take(i as int),
        decreases n - i,
    {
        let ghost before = lists@;
        let monsters = lists.remove(0);
        proof {
            let mapped = entry_lists_view(before);
            assert(mapped.len() == before.len());
            assert(mapped[0] == monsters@.map_values(|e: AbyssMonsterEntry| entry_view(e)));
            assert(lists@ =~= before.drop_first());
            assert(entry_lists_view(lists@) =~= mapped.drop_first());
            assert(mapped.drop_first() =~= st.groups.lists.skip(i + 1));
        }
        let group = FloorGroup { season: keys[i].0, floor: keys[i].1, monsters };
        let ghost before_groups = groups@;
        groups.push(group);
        proof {
            assert(group_view(group) == group_triples(st.groups)[i as int]);
            assert(groups@.map_values(|g: FloorGroup| group_view(g)) =~= before_groups.map_values(
                |g: FloorGroup| group_view(g),
            ).push(group_view(group)));
            assert(groups@.map_values(|g: FloorGroup| group_view(g)) =~= group_triples(st.groups).take(i + 1));
        }
        i += 1;
    }
    proof {
        assert(group_triples(st.groups).take(n as int) =~= group_triples(st.groups));
    }
    build_dataset(groups, &names, season_names)
}

// ---------------------------------------------------------------------------
// Pack ids
// ---------------------------------------------------------------------------

/// The entry of an abyss pack id, named from the static table or by its
/// monster id.
pub open spec fn pack_entry(pack_id: Seq<char>, statics: Seq<(Seq<char>, Option<Seq<char>>)>) -> Option<
    ((u32, u32), EntryView),
> {
    match spec_parse_abyss_pack_id(pack_id) {
        Some((season, floor, half, wave, monster_id)) => Some(
            (
                (season, floor),
                EntryView {
                    pack_id,
                    attribute_id: pack_id,
                    monster_pool_id: None,
                    monster_id,
                    name: match static_lookup(statics, spec_monster_lookup_keys(monster_id)) {
                        Some(Some(n)) => n,
                        _ => monster_id,
                    },
                    count: 1,
                    level: None,
                    half,
                    wave,
                    is_boss: false,
                },
            ),
        ),
        None => None,
    }
}

pub open spec fn pack_groups(pack_ids: Seq<Seq<char>>, statics: Seq<(Seq<char>, Option<Seq<char>>)>) -> Groups<
    (u32, u32),
    EntryView,
>
    decreases pack_ids.len(),
{
    if pack_ids.len() == 0 {
        Groups { keys: Seq::empty(), lists: Seq::empty() }
    } else {
        let before = pack_groups(pack_ids.drop_last(), statics);
        match pack_entry(pack_ids.last(), statics) {
            Some((key, e)) => add_to_group(before, key, e),
            None => before,
        }
    }
}

/// The dataset of the monster pack ids alone (when there are no summary rows).
pub open spec fn pack_dataset(
    pack_ids: Seq<Seq<char>>,
    statics: Seq<(Seq<char>, Option<Seq<char>>)>,
    season_names: Map<u32, Seq<char>>,
) -> Seq<SeasonView> {
    built_dataset(group_triples(pack_groups(pack_ids, statics)), Seq::empty(), season_names)
}

/// The floor groups held in `keys` and `lists`, in order, taken out of them.
fn take_groups(keys: &Vec<(u32, u32)>, lists: Vec<Vec<AbyssMonsterEntry>>) -> (r: Vec<FloorGroup>)
    requires
        keys@.len() == lists@.len(),
    ensures
        r@.map_values(|g: FloorGroup| group_view(g)) == group_triples(
            Groups { keys: keys@, lists: entry_lists_view(lists@) },
        ),
{
    let ghost g = Groups { keys: keys@, lists: entry_lists_view(lists@) };
    let mut lists = lists;
    let mut groups: Vec<FloorGroup> = Vec::new();
    let n = keys.len();
    let mut i: usize = 0;
    while i < n
        invariant
            n == keys@.len(),
            i <= n,
            lists@.len() == n - i,
            g.keys == keys@,
            g.lists.len() == n,
            entry_lists_view(lists@) == g.lists.skip(i as int),
            groups@.map_values(|g: FloorGroup| group_view(g)) == group_triples(g).take(i as int),
        decreases n - i,
    {
        let ghost before = lists@;
        let monsters = lists.remove(0);
        proof {
            let mapped = entry_lists_view(before);
            assert(mapped.len() == before.len());
            assert(mapped[0] == monsters@.map_values(|e: AbyssMonsterEntry| entry_view(e)));
            assert(lists@ =~= before.drop_first());
            assert(entry_lists_view(lists@) =~= mapped.drop_first());
            assert(mapped.drop_first() =~= g.lists.skip(i + 1));
        }
        let group = FloorGroup { season: keys[i].0, floor: keys[i].1, monsters };
        let ghost before_groups = groups@;
        groups.push(group);
        proof {
            assert(group_view(group) == group_triples(g)[i as int]);
            assert(groups@.map_values(|g: FloorGroup| group_view(g)) =~= before_groups.map_values(
                |g: FloorGroup| group_view(g),
            ).push(group_view(group)));
            assert(groups@.map_values(|g: FloorGroup| group_view(g)) =~= group_triples(g).take(i + 1));
        }
        i += 1;
    }
    proof {
        assert(group_triples(g).take(n as int) =~= group_triples(g));
    }
    groups
}

/// The dataset of the monster pack ids: each id of an abyss pack filed under
/// its floor.
pub fn build_dataset_from_pack_ids(
    pack_ids: &Vec<String>,
    static_index: &Vec<(String, StaticMonsterInfo)>,
    season_names: &HashMap<u32, String>,
) -> (r: AbyssMonsterDataset)
    ensures
        dataset_view(r) == pack_dataset(texts(pack_ids@), index_view(static_index@), season_names_view(season_names@)),
        well_ordered(r),
{
    let ghost statics = index_view(static_index@);
    let mut keys: Vec<(u32, u32)> = Vec::new();
    let mut lists: Vec<Vec<AbyssMonsterEntry>> = Vec::new();
    let mut i: usize = 0;
    proof {
        assert(texts(pack_ids@).take(0) =~= Seq::<Seq<char>>::empty());
        assert(entry_lists_view(lists@) =~= Seq::<Seq<EntryView>>::empty());
    }
    while i < pack_ids.len()
        invariant
            i <= pack_ids@.len(),
            statics == index_view(static_index@),
            keys@.len() == lists@.len(),
            pack_groups(texts(pack_ids@).take(i as int), statics) == (Groups {
                keys: keys@,
                lists: entry_lists_view(lists@),
            }),
        decreases pack_ids.len() - i,
    {
        proof {
            let t = texts(pack_ids@).take(i + 1);
            assert(t.drop_last() =~= texts(pack_ids@).take(i as int));
            assert(t.last() == pack_ids@[i as int]@);
        }
        let pack_id = &pack_ids[i];
        match parse_abyss_pack_id(pack_id.as_str()) {
            Some((season, floor, half, wave, monster_id)) => {
                let name = match lookup_static_monster(static_index, monster_id.as_str()) {
                    Some(info) => match &info.name {
                        Some(n) => n.clone(),
                        None => monster_id.clone(),
                    },
                    None => monster_id.clone(),
                };
                let entry = AbyssMonsterEntry {
                    pack_id: pack_id.clone(),
                    attribute_id: pack_id.clone(),
                    monster_pool_id: None,
                    monster_id,
                    name,
                    count: 1,
                    level: None,
                    half,
                    wave,
                    is_boss: false,
                };
                add_entry(&mut keys, &mut lists, (season, floor), entry);
            },
            None => {},
        }
        i += 1;
    }
    assert(texts(pack_ids@).take(pack_ids@.len() as int) =~= texts(pack_ids@));
    let groups = take_groups(&keys, lists);
    let names: Vec<(u32, u32, String)> = Vec::new();
    assert(floor_names_view(names@) =~= Seq::<(u32, u32, Seq<char>)>::empty());
    build_dataset(groups, &names, season_names)
}

// ---------------------------------------------------------------------------
// Season names
// ---------------------------------------------------------------------------

/// A season name: a string that, trimmed, is not empty and has no comma.
pub open spec fn valid_season_name(value: JsonValue) -> Option<Seq<char>> {
    match value {
        JsonValue::String(s) => {
            let t = trim(s@);
            if t.len() > 0 && !has_char(t, ',') {
                Some(t)
            } else {
                None
            }
        },
        _ => None,
    }
}

/// The seasons named by the members of an object whose keys are numbers.
pub open spec fn plain_names(entries: Seq<(String, JsonValue)>) -> Map<u32, Seq<char>>
    decreases entries.len(),
{
    if entries.len() == 0 {
        Map::empty()
    } else {
        let before = plain_names(entries.drop_last());
        let e = entries.last();
        match (parse_u32(e.0@), valid_season_name(e.1)) {
            (Some(season), Some(name)) => before.insert(season, name),
            _ => before,
        }
    }
}

/// The season number of a localisation key `Abyss_<n>_name`.
pub open spec fn localized_key_season(key: Seq<char>) -> Option<u32> {
    match strip_prefix(key, "Abyss_"@) {
        Some(rest) => match strip_suffix(rest, "_name"@) {
            Some(number) => parse_u32(number),
            None => None,
        },
        None => None,
    }
}

/// `names` with the seasons named by localisation keys anywhere in the
/// members `entries`, depth first, a later name replacing an earlier one.
pub open spec fn localized_names(names: Map<u32, Seq<char>>, entries: Seq<(String, JsonValue)>) -> Map<
    u32,
    Seq<char>,
>
    decreases entries,
{
    if entries.len() == 0 {
        names
    } else {
        let before = localized_names(names, entries.drop_last());
        let e = entries.last();
        let named = match (localized_key_season(e.0@), valid_season_name(e.1)) {
            (Some(season), Some(name)) => before.insert(season, name),
            _ => before,
        };
        match e.1 {
            JsonValue::Object(inner) => {
                proof {
                    assert(decreases_to!(entries => entries[entries.len() - 1]));
                }
                localized_names(named, inner@)
            },
            _ => named,
        }
    }
}

/// The season names of a names document: plain numbered names, then
/// localisation keys anywhere in it.
pub open spec fn season_names_of(document: JsonValue) -> Map<u32, Seq<char>> {
    match document {
        JsonValue::Object(entries) => localized_names(plain_names(entries@), entries@),
        _ => Map::empty(),
    }
}

fn valid_season_name_exec(value: &JsonValue) -> (r: Option<String>)
    ensures
        opt_view(r) == valid_season_name(*value),
{
    match value {
        JsonValue::String(s) => {
            let t = trimmed(s.as_str());
            let v = chars_of(t.as_str());
            if v.len() == 0 {
                return None;
            }
            let mut i: usize = 0;
            while i < v.len()
                invariant
                    i <= v@.len(),
                    v@ == t@,
                    *value == JsonValue::String(*s),
                    t@ == trim(s@),
                    t@.len() > 0,
                    forall|j: int| 0 <= j < i ==> v@[j] != ',',
                decreases v.len() - i,
            {
                if v[i] == ',' {
                    assert(has_char(t@, ','));
                    return None;
                }
                i += 1;
            }
            Some(t)
        },
        _ => None,
    }
}

fn name_insert_exec(names: &mut HashMap<u32, String>, season: u32, name: String)
    ensures
        season_names_view(final(names)@) == season_names_view(old(names)@).insert(season, name@),
{
    let ghost before = season_names_view(names@);
    let ghost named = name@;
    names.insert(season, name);
    assert(season_names_view(names@) =~= before.insert(season, named));
}

/// The seasons named by the numbered members of a names document.
pub fn parse_plain_abyss_season_names(document: &JsonValue) -> (r: HashMap<u32, String>)
    ensures
        season_names_view(r@) == (match *document {
            JsonValue::Object(entries) => plain_names(entries@),
            _ => Map::empty(),
        }),
{
    let mut names: HashMap<u32, String> = HashMap::new();
    let entries = match document {
        JsonValue::Object(entries) => entries,
        _ => {
            assert(season_names_view(names@) =~= Map::<u32, Seq<char>>::empty());
            return names;
        },
    };
    let mut i: usize = 0;
    assert(entries@.take(0) =~= Seq::<(String, JsonValue)>::empty());
    assert(season_names_view(names@) =~= Map::<u32, Seq<char>>::empty());
    while i < entries.len()
        invariant
            i <= entries@.len(),
            season_names_view(names@) == plain_names(entries@.take(i as int)),
        decreases entries.len() - i,
    {
        assert(entries@.take(i + 1).drop_last() =~= entries@.take(i as int));
        assert(entries@.take(i + 1).last() == entries@[i as int]);
        match parse_u32_str(entries[i].0.as_str()) {
            Some(season) => match valid_season_name_exec(&entries[i].1) {
                Some(name) => name_insert_exec(&mut names, season, name),
                None => {},
            },
            None => {},
        }
        i += 1;
    }
    assert(entries@.take(entries@.len() as int) =~= entries@);
    names
}

fn localized_key_season_exec(key: &str) -> (r: Option<u32>)
    ensures
        r == localized_key_season(key@),
{
    let v = chars_of(key);
    let prefix = chars_of("Abyss_");
    let suffix = chars_of("_name");
    if !starts_with_exec(&v, &prefix) {
        return None;
    }
    let rest = chars_range(&v, prefix.len(), v.len());
    assert(rest@ =~= v@.skip(prefix@.len() as int));
    if !ends_with_exec(&rest, &suffix) {
        return None;
    }
    let number = string_of_range(&rest, 0, rest.len() - suffix.len());
    assert(rest@.subrange(0, rest@.len() - suffix@.len()) =~= rest@.take(rest@.len() - suffix@.len()));
    parse_u32_str(number.as_str())
}

/// Names the seasons found under localisation keys `Abyss_<n>_name`
/// anywhere in `document`, a later name replacing an earlier one.
pub fn collect_localized_abyss_season_names(document: &JsonValue, names: &mut HashMap<u32, String>)
    ensures
        season_names_view(final(names)@) == (match *document {
            JsonValue::Object(entries) => localized_names(season_names_view(old(names)@), entries@),
            _ => season_names_view(old(names)@),
        }),
    decreases *document,
{
    let entries = match document {
        JsonValue::Object(entries) => entries,
        _ => return ,
    };
    let ghost start = season_names_view(names@);
    let mut i: usize = 0;
    assert(entries@.take(0) =~= Seq::<(String, JsonValue)>::empty());
    while i < entries.len()
        invariant
            i <= entries@.len(),
            *document == JsonValue::Object(*entries),
            season_names_view(names@) == localized_names(start, entries@.take(i as int)),
        decreases entries.len() - i,
    {
        assert(entries@.take(i + 1).drop_last() =~= entries@.take(i as int));
        assert(entries@.take(i + 1).last() == entries@[i as int]);
        match localized_key_season_exec(entries[i].0.as_str()) {
            Some(season) => match valid_season_name_exec(&entries[i].1) {
                Some(name) => name_insert_exec(names, season, name),
                None => {},
            },
            None => {},
        }
        proof {
            let e = entries@[i as int];
            assert(decreases_to!(*document => (*document)->Object_0));
            assert((*document)->Object_0 == *entries);
            assert(decreases_to!(*entries => entries@));
            assert(decreases_to!(entries@ => e));
            assert(decreases_to!(e => e.1));
            assert(decreases_to!(*document => e.1));
        }
        collect_localized_abyss_season_names(&entries[i].1, names);
        i += 1;
    }
    assert(entries@.take(entries@.len() as int) =~= entries@);
}

/// The season names of a names document (`parse_abyss_season_names`).
pub fn parse_abyss_season_names(document: &JsonValue) -> (r: HashMap<u32, String>)
    ensures
        season_names_view(r@) == season_names_of(*document),
{
    let mut names = parse_plain_abyss_season_names(document);
    collect_localized_abyss_season_names(document, &mut names);
    names
}

// ---------------------------------------------------------------------------
// Document shapes
// ---------------------------------------------------------------------------

/// The rows of a data table document: the `Rows` object of its first entry.
pub open spec fn table_rows(document: JsonValue) -> Option<Seq<(String, JsonValue)>> {
    match document {
        JsonValue::Array(entries) => if entries@.len() > 0 {
            match member(entries@[0], "Rows"@) {
                Some(JsonValue::Object(rows)) => Some(rows@),
                _ => None,
            }
        } else {
            None
        },
        _ => None,
    }
}

pub fn data_table_rows(document: &JsonValue) -> (r: Option<&Vec<(String, JsonValue)>>)
    ensures
        r is None <==> table_rows(*document) is None,
        r matches Some(rows) ==> table_rows(*document) == Some(rows@),
{
    match document {
        JsonValue::Array(entries) => {
            if entries.len() == 0 {
                return None;
            }
            match value_member(&entries[0], "Rows") {
                Some(JsonValue::Object(rows)) => Some(rows),
                _ => None,
            }
        },
        _ => None,
    }
}

/// The `rows` array of a floor summary document.
pub fn summary_rows_of(document: &JsonValue) -> (r: Option<&Vec<JsonValue>>)
    ensures
        r is None <==> field_array(*document, "rows"@) is None,
        r matches Some(rows) ==> field_array(*document, "rows"@) == Some(rows@),
{
    array_field(document, "rows")
}

// ---------------------------------------------------------------------------
// From the files' text
// ---------------------------------------------------------------------------

/// The dataset of a compact dataset file's text; `None` when the text is not
/// JSON or has no `seasons` array.
pub fn compact_dataset_from_text(text: &str) -> (r: Option<AbyssMonsterDataset>)
    ensures
        r is None <==> (json_document(text@) matches Some(d) ==> compact_dataset(d) is None),
        r matches Some(ds) ==> json_document(text@) matches Some(d) && compact_dataset(d) == Some(
            dataset_view(ds),
        ) && well_ordered(ds),
{
    match parse_json_document(text) {
        Some(document) => compact_dataset_from_document(&document),
        None => None,
    }
}

/// The rows of a data table file's text: the `Rows` object of
/// its first entry; `None` when the text is not JSON or has none.
pub fn data_table_rows_from_text(text: &str) -> (r: Option<Vec<(String, JsonValue)>>)
    ensures
        r is None <==> (json_document(text@) matches Some(d) ==> table_rows(d) is None),
        r matches Some(rows) ==> json_document(text@) matches Some(d) && table_rows(d) == Some(rows@),
{
    let document = match parse_json_document(text) {
        Some(d) => d,
        None => return None,
    };
    let mut entries = match document {
        JsonValue::Array(entries) => entries,
        _ => return None,
    };
    if entries.len() == 0 {
        return None;
    }
    let ghost before = entries@;
    let first = entries.remove(0);
    assert(first == before[0]);
    let members = match first {
        JsonValue::Object(members) => members,
        _ => return None,
    };
    match take_member(members, "Rows") {
        Some(JsonValue::Object(rows)) => Some(rows),
        _ => None,
    }
}

/// The `rows` array of a floor summary file's text;
/// `None` when the text is not JSON or has none.
pub fn summary_rows_from_text(text: &str) -> (r: Option<Vec<JsonValue>>)
    ensures
        r is None <==> (json_document(text@) matches Some(d) ==> field_array(d, "rows"@) is None),
        r matches Some(rows) ==> json_document(text@) matches Some(d) && field_array(d, "rows"@) == Some(
            rows@,
        ),
{
    let document = match parse_json_document(text) {
        Some(d) => d,
        None => return None,
    };
    let members = match document {
        JsonValue::Object(members) => members,
        _ => return None,
    };
    match take_member(members, "rows") {
        Some(JsonValue::Array(rows)) => Some(rows),
        _ => None,
    }
}

/// The season names of a names file's text;
/// none when the text is not JSON.
pub fn season_names_from_text(text: &str) -> (r: HashMap<u32, String>)
    ensures
        season_names_view(r@) == (match json_document(text@) {
            Some(d) => season_names_of(d),
            None => Map::empty(),
        }),
{
    match parse_json_document(text) {
        Some(document) => parse_abyss_season_names(&document),
        None => {
            let names: HashMap<u32, String> = HashMap::new();
            assert(season_names_view(names@) =~= Map::<u32, Seq<char>>::empty());
            names
        },
    }
}

// ---------------------------------------------------------------------------
// Choosing the source
// ---------------------------------------------------------------------------

/// The compact dataset is used when it has seasons; otherwise the dataset
/// is built from the tables.
pub fn usable_compact_dataset(dataset: AbyssMonsterDataset) -> (r: Option<AbyssMonsterDataset>)
    ensures
        r is Some <==> dataset.seasons@.len() > 0,
        r matches Some(d) ==> d == dataset,
{
    if dataset.seasons.len() > 0 {
        Some(dataset)
    } else {
        None
    }
}

/// The dataset of the tables: from the floor summary rows when there are
/// any, else from the pack ids alone.
pub open spec fn tables_dataset(
    summary_rows: Option<Seq<JsonValue>>,
    pack_ids: Seq<Seq<char>>,
    statics: Seq<(Seq<char>, Option<Seq<char>>)>,
    season_names: Map<u32, Seq<char>>,
) -> Seq<SeasonView> {
    match summary_rows {
        Some(rows) => if rows.len() > 0 {
            summary_dataset(rows, statics, season_names)
        } else {
            pack_dataset(pack_ids, statics, season_names)
        },
        None => pack_dataset(pack_ids, statics, season_names),
    }
}

/// Builds the dataset from the tables: the summary rows (`None` when there
/// is no summary file) are used when there are any, else the pack ids.
pub fn build_dataset_from_tables(
    summary_rows: Option<Vec<JsonValue>>,
    pack_ids: &Vec<String>,
    static_index: &Vec<(String, StaticMonsterInfo)>,
    season_names: &HashMap<u32, String>,
) -> (r: AbyssMonsterDataset)
    ensures
        dataset_view(r) == tables_dataset(
            match summary_rows {
                Some(rows) => Some(rows@),
                None => None,
            },
            texts(pack_ids@),
            index_view(static_index@),
            season_names_view(season_names@),
        ),
        well_ordered(r),
{
    match summary_rows {
        Some(rows) => {
            if rows.len() > 0 {
                return build_dataset_from_summary(&rows, static_index, season_names);
            }
        },
        None => {},
    }
    build_dataset_from_pack_ids(pack_ids, static_index, season_names)
}

// ---------------------------------------------------------------------------
// Waves of a line
// ---------------------------------------------------------------------------

/// A wave of a line: its number (none for monsters of no particular wave),
/// how many monsters it holds, and the positions of its entries in the line.
#[derive(Clone, Debug)]
pub struct WaveGroup {
    pub wave: Option<u32>,
    pub monster_count: u32,
    pub members: Vec<usize>,
}

pub struct WaveGroupView {
    pub wave: Option<u32>,
    pub monster_count: u32,
    pub members: Seq<usize>,
}

pub open spec fn wave_group_view(g: WaveGroup) -> WaveGroupView {
    WaveGroupView { wave: g.wave, monster_count: g.monster_count, members: g.members@ }
}

/// `a + b`, or `u32::MAX` when that overflows.
pub open spec fn saturating_sum(a: u32, b: u32) -> u32 {
    if a + b > u32::MAX {
        u32::MAX
    } else {
        (a + b) as u32
    }
}

pub open spec fn group_waves(g: Seq<WaveGroupView>) -> Seq<Option<u32>> {
    g.map_values(|v: WaveGroupView| v.wave)
}

/// The waves of a line's monsters, in the order they first appear: each
/// with its monsters' counts summed (saturating) and its entries' positions.
pub open spec fn waves_of(monsters: Seq<AbyssMonsterEntry>) -> Seq<WaveGroupView>
    decreases monsters.len(),
{
    if monsters.len() == 0 {
        Seq::empty()
    } else {
        let g = waves_of(monsters.drop_last());
        let m = monsters.last();
        let i = (monsters.len() - 1) as usize;
        match first_index_of(group_waves(g), m.wave) {
            Some(j) => g.update(
                j,
                WaveGroupView {
                    wave: m.wave,
                    monster_count: saturating_sum(g[j].monster_count, m.count),
                    members: g[j].members.push(i),
                },
            ),
            None => g.push(WaveGroupView { wave: m.wave, monster_count: m.count, members: seq![i] }),
        }
    }
}

/// Numbered waves in order of number, then the unnumbered one.
pub open spec fn wave_at_most(a: Option<u32>, b: Option<u32>) -> bool {
    match (a, b) {
        (Some(x), Some(y)) => x <= y,
        (Some(_), None) => true,
        (None, Some(_)) => false,
        (None, None) => true,
    }
}

pub open spec fn wave_view_le() -> spec_fn(WaveGroupView, WaveGroupView) -> bool {
    |a: WaveGroupView, b: WaveGroupView| wave_at_most(a.wave, b.wave)
}

impl Ranked for WaveGroup {
    open spec fn rank_le(self, other: Self) -> bool {
        wave_at_most(self.wave, other.wave)
    }

    proof fn lemma_rank_total(a: Self, b: Self) {
    }

    proof fn lemma_rank_trans(a: Self, b: Self, c: Self) {
    }

    fn ranks_le(&self, other: &Self) -> (r: bool) {
        match (self.wave, other.wave) {
            (Some(x), Some(y)) => x <= y,
            (Some(_), None) => true,
            (None, Some(_)) => false,
            (None, None) => true,
        }
    }
}

fn find_wave(groups: &Vec<WaveGroup>, wave: Option<u32>) -> (r: Option<usize>)
    ensures
        r is None <==> first_index_of(
            group_waves(groups@.map_values(|g: WaveGroup| wave_group_view(g))),
            wave,
        ) is None,
        r matches Some(j) ==> j < groups@.len() && first_index_of(
            group_waves(groups@.map_values(|g: WaveGroup| wave_group_view(g))),
            wave,
        ) == Some(j as int) && groups@[j as int].wave == wave,
{
    let ghost ws = group_waves(groups@.map_values(|g: WaveGroup| wave_group_view(g)));
    let mut i: usize = 0;
    while i < groups.len()
        invariant
            i <= groups@.len(),
            ws == group_waves(groups@.map_values(|g: WaveGroup| wave_group_view(g))),
            ws.len() == groups@.len(),
            forall|j: int| 0 <= j < i ==> ws[j] != wave,
        decreases groups.len() - i,
    {
        assert(ws[i as int] == groups@[i as int].wave);
        let same = match (groups[i].wave, wave) {
            (Some(x), Some(y)) => x == y,
            (None, None) => true,
            _ => false,
        };
        if same {
            proof {
                lemma_first_index_of(ws, wave, i as int);
            }
            return Some(i);
        }
        i += 1;
    }
    proof {
        if ws.contains(wave) {
            let w = choose|w: int| 0 <= w < ws.len() && ws[w] == wave;
            assert(ws[w] != wave);
        }
    }
    None
}

/// The waves of a line, for summing their hit points wave by wave: the
/// numbered waves in order of number, then the monsters of no particular wave.
pub fn line_waves(monsters: &Vec<AbyssMonsterEntry>) -> (r: Vec<WaveGroup>)
    ensures
        r@.map_values(|g: WaveGroup| wave_group_view(g)) == sort_by(waves_of(monsters@), wave_view_le()),
        sorted_by_rank(r@),
{
    let mut groups: Vec<WaveGroup> = Vec::new();
    let mut i: usize = 0;
    assert(monsters@.take(0) =~= Seq::<AbyssMonsterEntry>::empty());
    assert(groups@.map_values(|g: WaveGroup| wave_group_view(g)) =~= Seq::<WaveGroupView>::empty());
    while i < monsters.len()
        invariant
            i <= monsters@.len(),
            groups@.map_values(|g: WaveGroup| wave_group_view(g)) == waves_of(monsters@.take(i as int)),
        decreases monsters.len() - i,
    {
        let ghost before = groups@.map_values(|g: WaveGroup| wave_group_view(g));
        proof {
            let t = monsters@.take(i + 1);
            assert(t.drop_last() =~= monsters@.take(i as int));
            assert(t.last() == monsters@[i as int]);
            assert(t.len() - 1 == i);
        }
        let m = &monsters[i];
        match find_wave(&groups, m.wave) {
            Some(j) => {
                let ghost old_groups = groups@;
                let mut g = groups.remove(j);
                let total = g.monster_count.saturating_add(m.count);
                g.monster_count = total;
                g.members.push(i);
                groups.insert(j, g);
                proof {
                    assert(groups@ == old_groups.update(j as int, g));
                    assert(groups@.map_values(|g: WaveGroup| wave_group_view(g)) =~= before.update(
                        j as int,
                        WaveGroupView {
                            wave: m.wave,
                            monster_count: saturating_sum(before[j as int].monster_count, m.count),
                            members: before[j as int].members.push(i),
                        },
                    ));
                }
            },
            None => {
                let mut members: Vec<usize> = Vec::new();
                members.push(i);
                groups.push(WaveGroup { wave: m.wave, monster_count: m.count, members });
                proof {
                    assert(members@ =~= seq![i]);
                    assert(groups@.map_values(|g: WaveGroup| wave_group_view(g)) =~= before.push(
                        WaveGroupView { wave: m.wave, monster_count: m.count, members: seq![i] },
                    ));
                }
            },
        }
        i += 1;
    }
    assert(monsters@.take(monsters@.len() as int) =~= monsters@);
    let ghost unsorted = groups@;
    let sorted = sort_by_rank(groups);
    proof {
        lemma_sort_by_map(
            unsorted,
            |g: WaveGroup| wave_group_view(g),
            rank_rel::<WaveGroup>(),
            wave_view_le(),
        );
    }
    sorted
}

} // verus!
