//! Identifiers of the abyss data tables: pack ids, group and route names,
//! attribute ids, blueprint class paths, and the keys under which a monster's
//! static record is looked up.
use vstd::prelude::*;

use crate::text::{
    lemma_split_nonempty,
    all_digits, chars_eq, chars_of, chars_range, decimal, decimal_chars, distinct_keys, ends_with, ends_with_exec,
    is_ascii_digit, join, lemma_push_unique, join_from, lower_ascii_chars, lower_ascii_seq, parse_u32, parse_u32_chars,
    push_unique, push_unique_key, split, split_chars, starts_with_exec, str_ends_with, string_of,
    strip_prefix, strip_suffix, texts, trim_end_matches, views,
};

verus! {

/// The seasons the dataset keeps.
pub open spec fn supported_season(season: u32) -> bool {
    1 <= season <= 7
}

pub fn is_supported_abyss_season(season: u32) -> (r: bool)
    ensures
        r == supported_season(season),
{
    1 <= season && season <= 7
}

/// Non-empty and made only of ASCII digits.
pub open spec fn is_number_text(s: Seq<char>) -> bool {
    s.len() > 0 && all_digits(s)
}

pub fn is_u32(value: &str) -> (r: bool)
    ensures
        r == is_number_text(value@),
{
    let v = chars_of(value);
    is_digit_run(&v)
}

fn is_digit_run(v: &Vec<char>) -> (r: bool)
    ensures
        r == is_number_text(v@),
{
    if v.len() == 0 {
        return false;
    }
    let mut i: usize = 0;
    while i < v.len()
        invariant
            i <= v.len(),
            forall|j: int| 0 <= j < i ==> is_ascii_digit(#[trigger] v@[j]),
        decreases v.len() - i,
    {
        if !('0' <= v[i] && v[i] <= '9') {
            assert(!is_ascii_digit(v@[i as int]));
            return false;
        }
        i += 1;
    }
    true
}

/// `(season, floor, half, wave, monster_id)` of a pack id such as
/// `Abyss_<season>_<floor>[_<half>_<wave>]_<monster>`.
pub open spec fn spec_parse_abyss_pack_id(s: Seq<char>) -> Option<
    (u32, u32, Option<u32>, Option<u32>, Seq<char>),
> {
    let parts = split(s, '_');
    if parts.len() < 4 || parts[0] != "Abyss"@ {
        None
    } else {
        match (parse_u32(parts[1]), parse_u32(parts[2])) {
            (Some(season), Some(floor)) => {
                let long = parts.len() >= 6 && is_number_text(parts[3]) && is_number_text(parts[4]);
                let half = if long {
                    parse_u32(parts[3])
                } else {
                    None
                };
                let wave = if long {
                    parse_u32(parts[4])
                } else {
                    None
                };
                let start = if long {
                    5int
                } else {
                    3int
                };
                let monster_id = join(parts.skip(start), '_');
                if monster_id.len() == 0 {
                    None
                } else {
                    Some((season, floor, half, wave, monster_id))
                }
            },
            _ => None,
        }
    }
}

pub fn parse_abyss_pack_id(pack_id: &str) -> (r: Option<(u32, u32, Option<u32>, Option<u32>, String)>)
    ensures
        r is None <==> spec_parse_abyss_pack_id(pack_id@) is None,
        r matches Some(t) ==> spec_parse_abyss_pack_id(pack_id@) == Some((t.0, t.1, t.2, t.3, t.4@)),
{
    let v = chars_of(pack_id);
    let parts = split_chars(&v, '_');
    let ghost sp = split(pack_id@, '_');
    assert(views(parts@) =~= sp);
    let abyss = chars_of("Abyss");
    if parts.len() < 4 || !chars_eq(&parts[0], &abyss) {
        return None;
    }
    let season = match parse_u32_chars(&parts[1]) {
        Some(n) => n,
        None => return None,
    };
    let floor = match parse_u32_chars(&parts[2]) {
        Some(n) => n,
        None => return None,
    };
    let long = parts.len() >= 6 && is_digit_run(&parts[3]) && is_digit_run(&parts[4]);
    let (half, wave, start) = if long {
        (parse_u32_chars(&parts[3]), parse_u32_chars(&parts[4]), 5usize)
    } else {
        (None, None, 3usize)
    };
    let monster_id = join_from(&parts, start, '_');
    if monster_id.as_str().is_empty() {
        return None;
    }
    Some((season, floor, half, wave, monster_id))
}

/// The season of a group name: `Abyss_Common` is 0, `Abyss_<n>` is `n`.
pub open spec fn spec_parse_abyss_group(s: Seq<char>) -> Option<u32> {
    match strip_prefix(s, "Abyss_"@) {
        Some(suffix) => if suffix == "Common"@ {
            Some(0)
        } else {
            parse_u32(suffix)
        },
        None => None,
    }
}

pub fn parse_abyss_group(value: &str) -> (r: Option<u32>)
    ensures
        r == spec_parse_abyss_group(value@),
{
    let v = chars_of(value);
    let prefix = chars_of("Abyss_");
    if !starts_with_exec(&v, &prefix) {
        return None;
    }
    let suffix = chars_range(&v, prefix.len(), v.len());
    assert(suffix@ =~= v@.skip(prefix@.len() as int));
    let common = chars_of("Common");
    if chars_eq(&suffix, &common) {
        Some(0)
    } else {
        parse_u32_chars(&suffix)
    }
}

/// The half of a route name: 0 for the first half, 1 for the second.
pub open spec fn spec_parse_abyss_route_half(s: Seq<char>) -> Option<u32> {
    if ends_with(s, "FirstHalf"@) {
        Some(0)
    } else if ends_with(s, "SecondHalf"@) {
        Some(1)
    } else {
        None
    }
}

pub fn parse_abyss_route_half(value: &str) -> (r: Option<u32>)
    ensures
        r == spec_parse_abyss_route_half(value@),
{
    if str_ends_with(value, "FirstHalf") {
        Some(0)
    } else if str_ends_with(value, "SecondHalf") {
        Some(1)
    } else {
        None
    }
}

/// The monster id inside an attribute id: after `Abyss_Common_<n>_`,
/// `Abyss_<season>_<floor>_<half>_<wave>_` or `Abyss_<season>_<floor>_`.
pub open spec fn spec_parse_abyss_attribute_monster_id(s: Seq<char>) -> Option<Seq<char>> {
    let parts = split(s, '_');
    if parts.len() < 4 || parts[0] != "Abyss"@ {
        None
    } else {
        let start = if parts[1] == "Common"@ {
            3int
        } else if parts.len() >= 5 && is_number_text(parts[1]) && is_number_text(parts[2])
            && is_number_text(parts[3]) && is_number_text(parts[4]) {
            5int
        } else if is_number_text(parts[1]) && is_number_text(parts[2]) {
            3int
        } else {
            -1int
        };
        if start < 0 {
            None
        } else {
            let monster_id = join(parts.skip(start), '_');
            if monster_id.len() == 0 {
                None
            } else {
                Some(monster_id)
            }
        }
    }
}

pub fn parse_abyss_attribute_monster_id(attribute_id: &str) -> (r: Option<String>)
    ensures
        r is None <==> spec_parse_abyss_attribute_monster_id(attribute_id@) is None,
        r matches Some(id) ==> spec_parse_abyss_attribute_monster_id(attribute_id@) == Some(id@),
{
    let v = chars_of(attribute_id);
    let parts = split_chars(&v, '_');
    let ghost sp = split(attribute_id@, '_');
    assert(views(parts@) =~= sp);
    let abyss = chars_of("Abyss");
    if parts.len() < 4 || !chars_eq(&parts[0], &abyss) {
        return None;
    }
    let common = chars_of("Common");
    let start: usize = if chars_eq(&parts[1], &common) {
        3
    } else if parts.len() >= 5 && is_digit_run(&parts[1]) && is_digit_run(&parts[2])
        && is_digit_run(&parts[3]) && is_digit_run(&parts[4]) {
        5
    } else if is_digit_run(&parts[1]) && is_digit_run(&parts[2]) {
        3
    } else {
        return None;
    };
    let monster_id = join_from(&parts, start, '_');
    if monster_id.as_str().is_empty() {
        return None;
    }
    Some(monster_id)
}

/// The monster id named by a blueprint class path: the asset name after the
/// last `/`, up to its first `.`, without trailing `_C`, `_Abyss` and `_abyss`.
pub open spec fn spec_monster_id_from_class_path(path: Seq<char>) -> Option<Seq<char>> {
    let asset_name = split(split(path, '/').last(), '.')[0];
    let normalized = trim_end_matches(
        trim_end_matches(trim_end_matches(asset_name, "_C"@), "_Abyss"@),
        "_abyss"@,
    );
    if normalized.len() == 0 {
        None
    } else {
        Some(normalized)
    }
}

/// `trim_end_matches` over characters.
pub fn trim_end_matches_chars(v: &Vec<char>, p: &Vec<char>) -> (out: Vec<char>)
    ensures
        out@ == trim_end_matches(v@, p@),
{
    if p.len() == 0 {
        return chars_range(v, 0, v.len());
    }
    let mut end: usize = v.len();
    let ghost goal = trim_end_matches(v@, p@);
    assert(v@.take(v@.len() as int) =~= v@);
    loop
        invariant
            end <= v.len(),
            p@.len() > 0,
            goal == trim_end_matches(v@, p@),
            trim_end_matches(v@.take(end as int), p@) == goal,
        decreases end,
    {
        let prefix = chars_range(v, 0, end);
        if ends_with_exec(&prefix, p) {
            assert(prefix@ == v@.take(end as int));
            assert(v@.take(end as int).take(end - p@.len()) =~= v@.take(end - p@.len()));
            end = end - p.len();
        } else {
            assert(trim_end_matches(prefix@, p@) == prefix@);
            return prefix;
        }
    }
}

pub fn monster_id_from_class_path(path: &str) -> (r: Option<String>)
    ensures
        r is None <==> spec_monster_id_from_class_path(path@) is None,
        r matches Some(id) ==> spec_monster_id_from_class_path(path@) == Some(id@),
{
    let v = chars_of(path);
    let segments = split_chars(&v, '/');
    proof {
        lemma_split_nonempty(path@, '/');
    }
    let last = &segments[segments.len() - 1];
    let pieces = split_chars(last, '.');
    proof {
        lemma_split_nonempty(last@, '.');
    }
    let asset_name = &pieces[0];
    let c = chars_of("_C");
    let upper = chars_of("_Abyss");
    let lower = chars_of("_abyss");
    let a = trim_end_matches_chars(asset_name, &c);
    let b = trim_end_matches_chars(&a, &upper);
    let normalized = trim_end_matches_chars(&b, &lower);
    if normalized.len() == 0 {
        None
    } else {
        Some(string_of(&normalized))
    }
}

/// A static-table key: trailing `_Abyss` and `_abyss` removed, then lower-cased.
pub open spec fn spec_normalize_monster_key(value: Seq<char>) -> Seq<char> {
    lower_ascii_seq(trim_end_matches(trim_end_matches(value, "_Abyss"@), "_abyss"@))
}

pub fn normalize_monster_key(value: &str) -> (r: String)
    ensures
        r@ == spec_normalize_monster_key(value@),
{
    let v = chars_of(value);
    let upper = chars_of("_Abyss");
    let lower = chars_of("_abyss");
    let a = trim_end_matches_chars(&v, &upper);
    let b = trim_end_matches_chars(&a, &lower);
    let l = lower_ascii_chars(&b);
    string_of(&l)
}

/// An underscore-separated part with a decimal number rewritten without
/// padding (`016` becomes `16`); other parts are kept.
pub open spec fn unpadded_part(part: Seq<char>) -> Seq<char> {
    match parse_u32(part) {
        Some(n) => decimal(n as nat),
        None => part,
    }
}

/// Every `_`-separated part of `value` without numeric padding.
pub open spec fn spec_normalize_monster_numeric_key(value: Seq<char>) -> Seq<char> {
    join(split(value, '_').map_values(|p: Seq<char>| unpadded_part(p)), '_')
}

pub fn normalize_monster_numeric_key(value: &str) -> (r: String)
    ensures
        r@ == spec_normalize_monster_numeric_key(value@),
{
    let v = chars_of(value);
    normalize_numeric_chars(&v)
}

fn normalize_numeric_chars(v: &Vec<char>) -> (r: String)
    ensures
        r@ == spec_normalize_monster_numeric_key(v@),
{
    let parts = split_chars(v, '_');
    let ghost mapped = split(v@, '_').map_values(|p: Seq<char>| unpadded_part(p));
    let mut out: Vec<Vec<char>> = Vec::new();
    let mut i: usize = 0;
    while i < parts.len()
        invariant
            i <= parts@.len(),
            parts@.len() == split(v@, '_').len(),
            forall|k: int| 0 <= k < parts@.len() ==> #[trigger] parts@[k]@ == split(v@, '_')[k],
            mapped == split(v@, '_').map_values(|p: Seq<char>| unpadded_part(p)),
            out@.len() == i,
            forall|k: int| 0 <= k < i ==> #[trigger] out@[k]@ == mapped[k],
        decreases parts.len() - i,
    {
        let piece = match parse_u32_chars(&parts[i]) {
            Some(n) => decimal_chars(n as u64),
            None => chars_range(&parts[i], 0, parts[i].len()),
        };
        assert(parts@[i as int]@.subrange(0, parts@[i as int]@.len() as int) =~= parts@[i as int]@);
        out.push(piece);
        i += 1;
    }
    let r = join_from(&out, 0, '_');
    assert(views(out@).skip(0) =~= mapped);
    r
}

/// The keys a monster id is looked up under, in order and without repeats:
/// the normalized id, its unpadded form, then for each of the suffixes
/// `_bp`, `_bf`, `_b` that it ends with, the id without it and that unpadded.
pub open spec fn spec_monster_lookup_keys(value: Seq<char>) -> Seq<Seq<char>> {
    let n = spec_normalize_monster_key(value);
    let k0 = push_unique(push_unique(Seq::empty(), n), spec_normalize_monster_numeric_key(n));
    let k1 = with_trimmed(k0, n, "_bp"@);
    let k2 = with_trimmed(k1, n, "_bf"@);
    with_trimmed(k2, n, "_b"@)
}

/// `keys` extended by `n` without `suffix` and that unpadded, when `n` ends with `suffix`.
pub open spec fn with_trimmed(keys: Seq<Seq<char>>, n: Seq<char>, suffix: Seq<char>) -> Seq<
    Seq<char>,
> {
    match strip_suffix(n, suffix) {
        Some(t) => push_unique(push_unique(keys, t), spec_normalize_monster_numeric_key(t)),
        None => keys,
    }
}

fn push_trimmed(keys: &mut Vec<String>, n: &Vec<char>, suffix: &str)
    ensures
        texts(final(keys)@) == with_trimmed(texts(old(keys)@), n@, suffix@),
{
    let s = chars_of(suffix);
    if ends_with_exec(n, &s) {
        let t = chars_range(n, 0, n.len() - s.len());
        assert(t@ =~= n@.take(n@.len() - s@.len()));
        push_unique_key(keys, string_of(&t));
        push_unique_key(keys, normalize_numeric_chars(&t));
    }
}

pub fn monster_lookup_keys(value: &str) -> (r: Vec<String>)
    ensures
        texts(r@) == spec_monster_lookup_keys(value@),
{
    let mut keys: Vec<String> = Vec::new();
    let normalized = normalize_monster_key(value);
    let n = chars_of(normalized.as_str());
    assert(texts(keys@) =~= Seq::<Seq<char>>::empty());
    push_unique_key(&mut keys, normalized.clone());
    push_unique_key(&mut keys, normalize_numeric_chars(&n));
    push_trimmed(&mut keys, &n, "_bp");
    push_trimmed(&mut keys, &n, "_bf");
    push_trimmed(&mut keys, &n, "_b");
    keys
}

/// The lookup keys of a monster id never repeat and start with its
/// normalised form.
pub proof fn lemma_lookup_keys_distinct(value: Seq<char>)
    ensures
        distinct_keys(spec_monster_lookup_keys(value)),
        spec_monster_lookup_keys(value)[0] == spec_normalize_monster_key(value),
{
    let n = spec_normalize_monster_key(value);
    let e = Seq::<Seq<char>>::empty();
    assert(distinct_keys(e));
    lemma_push_unique(e, n);
    let a = push_unique(e, n);
    lemma_push_unique(a, spec_normalize_monster_numeric_key(n));
    let k0 = push_unique(a, spec_normalize_monster_numeric_key(n));
    lemma_with_trimmed(k0, n, "_bp"@);
    let k1 = with_trimmed(k0, n, "_bp"@);
    lemma_with_trimmed(k1, n, "_bf"@);
    let k2 = with_trimmed(k1, n, "_bf"@);
    lemma_with_trimmed(k2, n, "_b"@);
}

proof fn lemma_with_trimmed(keys: Seq<Seq<char>>, n: Seq<char>, suffix: Seq<char>)
    ensures
        distinct_keys(keys) ==> distinct_keys(with_trimmed(keys, n, suffix)),
        keys.len() > 0 ==> with_trimmed(keys, n, suffix).len() > 0 && with_trimmed(keys, n, suffix)[0]
            == keys[0],
{
    if let Some(t) = strip_suffix(n, suffix) {
        lemma_push_unique(keys, t);
        lemma_push_unique(push_unique(keys, t), spec_normalize_monster_numeric_key(t));
    }
}

} // verus!
