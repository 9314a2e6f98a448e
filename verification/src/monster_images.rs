//! The file stems a monster portrait may be stored under, derived from a
//! monster id by dropping the extension, blueprint suffixes, variant colours,
//! summon and double markers and trailing numbers.
use vstd::prelude::*;

use crate::text::{
    lemma_split_nonempty,
    all_digits, chars_eq, chars_of, chars_range, decimal, decimal_chars, distinct_keys, ends_with,
    ends_with_exec, lemma_push_unique,
    find_exec, has_char, join, join_from, lower_ascii_chars, lower_ascii_seq, occurs_at, owned,
    parse_u32, parse_u32_chars, push_chars, push_unique, push_unique_key, split, split_chars,
    starts_with, starts_with_exec, string_of, texts, views,
};

verus! {

/// `value` up to its last `.`, or all of it when it has none.
pub open spec fn stem(value: Seq<char>) -> Seq<char> {
    let parts = split(value, '.');
    if parts.len() > 1 {
        join(parts.drop_last(), '.')
    } else {
        value
    }
}

/// `stem` as characters.
fn stem_chars(v: &Vec<char>) -> (r: Vec<char>)
    ensures
        r@ == stem(v@),
{
    let parts = split_chars(v, '.');
    if parts.len() > 1 {
        let mut out: Vec<char> = Vec::new();
        let mut i: usize = 0;
        let ghost all = views(parts@).drop_last();
        assert(all =~= split(v@, '.').drop_last());
        while i < parts.len() - 1
            invariant
                1 < parts@.len(),
                i <= parts@.len() - 1,
                all == views(parts@).drop_last(),
                out@ == join(all.take(i as int), '.'),
            decreases parts.len() - 1 - i,
        {
            let ghost prev = all.take(i as int);
            if i > 0 {
                out.push('.');
            }
            let mut k: usize = 0;
            let ghost before = out@;
            while k < parts[i].len()
                invariant
                    i < parts@.len(),
                    k <= parts@[i as int]@.len(),
                    out@ == before + parts@[i as int]@.take(k as int),
                decreases parts[i as int]@.len() - k,
            {
                out.push(parts[i][k]);
                k += 1;
                assert(out@ =~= before + parts@[i as int]@.take(k as int));
            }
            assert(parts@[i as int]@.take(k as int) =~= parts@[i as int]@);
            i += 1;
            proof {
                let next = all.take(i as int);
                assert(next.drop_last() =~= prev);
                assert(next.last() == parts@[i - 1]@);
                if next.len() == 1 {
                    assert(prev.len() == 0);
                    assert(out@ =~= parts@[i - 1]@);
                } else {
                    assert(out@ =~= join(prev, '.').push('.') + parts@[i - 1]@);
                }
            }
        }
        assert(all.take(parts@.len() - 1) =~= all);
        out
    } else {
        chars_range(v, 0, v.len())
    }
}

/// The non-empty parts, in order.
pub open spec fn nonempty_parts(parts: Seq<Seq<char>>) -> Seq<Seq<char>>
    decreases parts.len(),
{
    if parts.len() == 0 {
        Seq::empty()
    } else if parts.last().len() == 0 {
        nonempty_parts(parts.drop_last())
    } else {
        nonempty_parts(parts.drop_last()).push(parts.last())
    }
}

/// A part with a decimal number rewritten without padding.
pub open spec fn unpadded(part: Seq<char>) -> Seq<char> {
    match parse_u32(part) {
        Some(n) => decimal(n as nat),
        None => part,
    }
}

/// The canonical image key: the stem lower-cased, split on `_`, empty parts
/// dropped, numbers unpadded, joined by `_`.
pub open spec fn canonical_key(value: Seq<char>) -> Seq<char> {
    join(
        nonempty_parts(split(lower_ascii_seq(stem(value)), '_')).map_values(
            |p: Seq<char>| unpadded(p),
        ),
        '_',
    )
}

pub fn canonical_monster_image_key(value: &str) -> (r: String)
    ensures
        r@ == canonical_key(value@),
{
    let v = chars_of(value);
    let s = stem_chars(&v);
    let lower = lower_ascii_chars(&s);
    let parts = split_chars(&lower, '_');
    let ghost all = split(lower_ascii_seq(stem(value@)), '_');
    let mut kept: Vec<Vec<char>> = Vec::new();
    let mut i: usize = 0;
    while i < parts.len()
        invariant
            i <= parts@.len(),
            all == split(lower_ascii_seq(stem(value@)), '_'),
            parts@.len() == all.len(),
            forall|k: int| 0 <= k < parts@.len() ==> #[trigger] parts@[k]@ == all[k],
            views(kept@) == nonempty_parts(all.take(i as int)).map_values(
                |p: Seq<char>| unpadded(p),
            ),
        decreases parts.len() - i,
    {
        let ghost prev = views(kept@);
        proof {
            assert(all.take(i + 1).drop_last() =~= all.take(i as int));
            assert(all.take(i + 1).last() == all[i as int]);
        }
        if parts[i].len() > 0 {
            let piece = match parse_u32_chars(&parts[i]) {
                Some(n) => decimal_chars(n as u64),
                None => chars_range(&parts[i], 0, parts[i].len()),
            };
            assert(parts@[i as int]@.subrange(0, parts@[i as int]@.len() as int) =~= parts@[
                i as int
            ]@);
            kept.push(piece);
            proof {
                assert(views(kept@) =~= prev.push(unpadded(all[i as int])));
                assert(views(kept@) =~= nonempty_parts(all.take(i + 1)).map_values(
                    |p: Seq<char>| unpadded(p),
                ));
            }
        } else {
            proof {
                assert(views(kept@) =~= nonempty_parts(all.take(i + 1)).map_values(
                    |p: Seq<char>| unpadded(p),
                ));
            }
        }
        i += 1;
    }
    assert(all.take(parts@.len() as int) =~= all);
    let r = join_from(&kept, 0, '_');
    assert(views(kept@).skip(0) =~= views(kept@));
    r
}

// ---------------------------------------------------------------------------
// Trimming suffixes and markers
// ---------------------------------------------------------------------------

/// `s` without the first of `suffixes` that it ends with.
pub open spec fn strip_first(s: Seq<char>, suffixes: Seq<Seq<char>>) -> Option<Seq<char>>
    decreases suffixes.len(),
{
    if suffixes.len() == 0 {
        None
    } else if suffixes[0].len() > 0 && ends_with(s, suffixes[0]) {
        Some(s.take(s.len() - suffixes[0].len()))
    } else {
        strip_first(s, suffixes.drop_first())
    }
}

pub proof fn lemma_strip_first_shorter(s: Seq<char>, suffixes: Seq<Seq<char>>)
    ensures
        strip_first(s, suffixes) matches Some(t) ==> t.len() < s.len(),
    decreases suffixes.len(),
{
    if suffixes.len() > 0 && !(suffixes[0].len() > 0 && ends_with(s, suffixes[0])) {
        lemma_strip_first_shorter(s, suffixes.drop_first());
    }
}

/// Each successive result of stripping suffixes from `s` until none applies.
pub open spec fn strip_chain(s: Seq<char>, suffixes: Seq<Seq<char>>) -> Seq<Seq<char>>
    decreases s.len(),
{
    match strip_first(s, suffixes) {
        Some(t) => if t.len() < s.len() {
            seq![t] + strip_chain(t, suffixes)
        } else {
            Seq::empty()
        },
        None => Seq::empty(),
    }
}

/// What is left after stripping suffixes from `s` until none applies.
pub open spec fn strip_all(s: Seq<char>, suffixes: Seq<Seq<char>>) -> Seq<char>
    decreases s.len(),
{
    match strip_first(s, suffixes) {
        Some(t) => if t.len() < s.len() {
            strip_all(t, suffixes)
        } else {
            s
        },
        None => s,
    }
}

/// `keys` with each of `items` pushed uniquely, in order.
pub open spec fn push_all(keys: Seq<Seq<char>>, items: Seq<Seq<char>>) -> Seq<Seq<char>>
    decreases items.len(),
{
    if items.len() == 0 {
        keys
    } else {
        push_all(push_unique(keys, items[0]), items.drop_first())
    }
}

fn strip_first_exec(s: &Vec<char>, suffixes: &Vec<Vec<char>>) -> (r: Option<Vec<char>>)
    ensures
        r is None <==> strip_first(s@, views(suffixes@)) is None,
        r matches Some(t) ==> strip_first(s@, views(suffixes@)) == Some(t@),
{
    let mut i: usize = 0;
    assert(views(suffixes@).skip(0) =~= views(suffixes@));
    while i < suffixes.len()
        invariant
            i <= suffixes@.len(),
            strip_first(s@, views(suffixes@)) == strip_first(s@, views(suffixes@).skip(i as int)),
        decreases suffixes.len() - i,
    {
        let ghost rest = views(suffixes@).skip(i as int);
        assert(rest[0] == suffixes@[i as int]@);
        if suffixes[i].len() > 0 && ends_with_exec(s, &suffixes[i]) {
            return Some(chars_range(s, 0, s.len() - suffixes[i].len()));
        }
        assert(rest.drop_first() =~= views(suffixes@).skip(i + 1));
        i += 1;
    }
    None
}

/// Pushes each successive stripped value; returns what is left.
fn push_strip_chain(keys: &mut Vec<String>, start: &Vec<char>, suffixes: &Vec<Vec<char>>) -> (r: Vec<
    char,
>)
    ensures
        texts(final(keys)@) == push_all(texts(old(keys)@), strip_chain(start@, views(suffixes@))),
        r@ == strip_all(start@, views(suffixes@)),
{
    let ghost sx = views(suffixes@);
    let mut current = chars_range(start, 0, start.len());
    assert(start@.subrange(0, start@.len() as int) =~= start@);
    let ghost initial = texts(keys@);
    loop
        invariant
            sx == views(suffixes@),
            initial == texts(old(keys)@),
            push_all(initial, strip_chain(start@, sx)) == push_all(
                texts(keys@),
                strip_chain(current@, sx),
            ),
            strip_all(start@, sx) == strip_all(current@, sx),
        decreases current@.len(),
    {
        proof {
            lemma_strip_first_shorter(current@, sx);
        }
        match strip_first_exec(&current, suffixes) {
            Some(next) => {
                let ghost before = texts(keys@);
                push_unique_key(keys, string_of(&next));
                proof {
                    assert(strip_chain(current@, sx) == seq![next@] + strip_chain(next@, sx));
                    assert((seq![next@] + strip_chain(next@, sx)).drop_first() =~= strip_chain(
                        next@,
                        sx,
                    ));
                }
                current = next;
            },
            None => {
                proof {
                    assert(strip_chain(current@, sx) =~= Seq::<Seq<char>>::empty());
                    assert(push_all(texts(keys@), Seq::<Seq<char>>::empty()) == texts(keys@));
                }
                return current;
            },
        }
    }
}

/// `s` before the first occurrence of `marker`, when it has one (`split_once`).
pub open spec fn before_marker(s: Seq<char>, marker: Seq<char>) -> Option<Seq<char>> {
    if exists|i: int| occurs_at(s, marker, i) {
        let i = choose|i: int| occurs_at(s, marker, i) && forall|j: int| 0 <= j < i ==> !occurs_at(s, marker, j);
        Some(s.take(i))
    } else {
        None
    }
}

fn push_before_marker(keys: &mut Vec<String>, s: &Vec<char>, marker: &str)
    ensures
        texts(final(keys)@) == (match before_marker(s@, marker@) {
            Some(b) => push_unique(texts(old(keys)@), b),
            None => texts(old(keys)@),
        }),
{
    let m = chars_of(marker);
    match find_exec(s, &m) {
        Some(i) => {
            proof {
                let w = choose|w: int| occurs_at(s@, m@, w) && forall|j: int| 0 <= j < w ==> !occurs_at(s@, m@, j);
                if w < i {
                } else if w > i {
                    assert(!occurs_at(s@, m@, i as int));
                }
                assert(w == i);
            }
            let b = chars_range(s, 0, i);
            assert(b@ =~= s@.take(i as int));
            push_unique_key(keys, string_of(&b));
        },
        None => {},
    }
}

fn push_without_suffix(keys: &mut Vec<String>, s: &Vec<char>, suffix: &str)
    ensures
        texts(final(keys)@) == (if ends_with(s@, suffix@) {
            push_unique(texts(old(keys)@), s@.take(s@.len() - suffix@.len()))
        } else {
            texts(old(keys)@)
        }),
{
    let p = chars_of(suffix);
    if ends_with_exec(s, &p) {
        let b = chars_range(s, 0, s.len() - p.len());
        assert(b@ =~= s@.take(s@.len() - suffix@.len()));
        push_unique_key(keys, string_of(&b));
    }
}

pub open spec fn stem_suffixes() -> Seq<Seq<char>> {
    seq!["_Abyss"@, "_abyss"@, "_BP"@, "_bp"@, "_BF"@, "_bf"@, "_B"@, "_b"@]
}

pub open spec fn key_suffixes() -> Seq<Seq<char>> {
    seq!["_abyss"@, "_bp"@, "_bf"@, "_b"@]
}

pub open spec fn push_marker(keys: Seq<Seq<char>>, s: Seq<char>, marker: Seq<char>) -> Seq<
    Seq<char>,
> {
    match before_marker(s, marker) {
        Some(b) => push_unique(keys, b),
        None => keys,
    }
}

/// The stems of `stem` with its blueprint suffixes stripped one by one, then
/// the part before a summon or double marker.
pub open spec fn trimmed_stems(keys: Seq<Seq<char>>, stem: Seq<char>) -> Seq<Seq<char>> {
    let chained = push_all(keys, strip_chain(stem, stem_suffixes()));
    let current = strip_all(stem, stem_suffixes());
    push_marker(
        push_marker(
            push_marker(push_marker(chained, current, "_summon"@), current, "_Summon"@),
            current,
            "_double_"@,
        ),
        current,
        "_Double_"@,
    )
}

fn literal_list4(a: &str, b: &str, c: &str, d: &str) -> (r: Vec<Vec<char>>)
    ensures
        views(r@) == seq![a@, b@, c@, d@],
{
    let mut r: Vec<Vec<char>> = Vec::new();
    r.push(chars_of(a));
    r.push(chars_of(b));
    r.push(chars_of(c));
    r.push(chars_of(d));
    assert(views(r@) =~= seq![a@, b@, c@, d@]);
    r
}

fn push_literal(list: &mut Vec<Vec<char>>, item: &str)
    ensures
        views(final(list)@) == views(old(list)@).push(item@),
{
    list.push(chars_of(item));
    assert(views(list@) =~= views(old(list)@).push(item@));
}

pub fn push_trimmed_monster_stems(stems: &mut Vec<String>, stem: &str)
    ensures
        texts(final(stems)@) == trimmed_stems(texts(old(stems)@), stem@),
{
    let mut suffixes = literal_list4("_Abyss", "_abyss", "_BP", "_bp");
    push_literal(&mut suffixes, "_BF");
    push_literal(&mut suffixes, "_bf");
    push_literal(&mut suffixes, "_B");
    push_literal(&mut suffixes, "_b");
    assert(views(suffixes@) =~= stem_suffixes());
    let s = chars_of(stem);
    let current = push_strip_chain(stems, &s, &suffixes);
    push_before_marker(stems, &current, "_summon");
    push_before_marker(stems, &current, "_Summon");
    push_before_marker(stems, &current, "_double_");
    push_before_marker(stems, &current, "_Double_");
}

/// `s` before its last `_`, when the part after it is all ASCII digits
/// (possibly none) and that part before contains `_`.
pub open spec fn numbered_base(s: Seq<char>) -> Option<Seq<char>> {
    let parts = split(s, '_');
    if parts.len() > 1 && all_digits(parts.last()) {
        let base = join(parts.drop_last(), '_');
        if has_char(base, '_') {
            Some(base)
        } else {
            None
        }
    } else {
        None
    }
}

/// The keys of `key` with its blueprint suffixes stripped one by one, then
/// without a colour, before a summon or double marker, and without a trailing number.
pub open spec fn trimmed_keys(keys: Seq<Seq<char>>, key: Seq<char>) -> Seq<Seq<char>> {
    let chained = push_all(keys, strip_chain(key, key_suffixes()));
    let current = strip_all(key, key_suffixes());
    let k1 = if ends_with(current, "_blue"@) {
        push_unique(chained, current.take(current.len() - "_blue"@.len()))
    } else {
        chained
    };
    let k2 = if ends_with(current, "_red"@) {
        push_unique(k1, current.take(current.len() - "_red"@.len()))
    } else {
        k1
    };
    let k3 = push_marker(push_marker(k2, current, "_summon"@), current, "_double_"@);
    match numbered_base(current) {
        Some(b) => push_unique(k3, b),
        None => k3,
    }
}

fn numbered_base_exec(s: &Vec<char>) -> (r: Option<Vec<char>>)
    ensures
        r is None <==> numbered_base(s@) is None,
        r matches Some(b) ==> numbered_base(s@) == Some(b@),
{
    let ghost sp = split(s@, '_');
    let parts = split_chars(s, '_');
    proof {
        lemma_split_nonempty(s@, '_');
    }
    if parts.len() <= 1 {
        return None;
    }
    let last = &parts[parts.len() - 1];
    assert(last@ == sp.last());
    let mut i: usize = 0;
    while i < last.len()
        invariant
            i <= last@.len(),
            sp == split(s@, '_'),
            sp.len() > 1,
            last@ == sp.last(),
            forall|j: int| 0 <= j < i ==> crate::text::is_ascii_digit(#[trigger] last@[j]),
        decreases last.len() - i,
    {
        if !('0' <= last[i] && last[i] <= '9') {
            assert(!crate::text::is_ascii_digit(sp.last()[i as int]));
            assert(!all_digits(sp.last()));
            return None;
        }
        i += 1;
    }
    assert(all_digits(sp.last()));
    let mut base: Vec<char> = Vec::new();
    let mut k: usize = 0;
    let ghost all = views(parts@).drop_last();
    assert(all =~= sp.drop_last());
    while k < parts.len() - 1
        invariant
            1 < parts@.len(),
            k <= parts@.len() - 1,
            all == views(parts@).drop_last(),
            base@ == join(all.take(k as int), '_'),
        decreases parts.len() - 1 - k,
    {
        let ghost prev = all.take(k as int);
        if k > 0 {
            base.push('_');
        }
        let ghost before = base@;
        let mut j: usize = 0;
        while j < parts[k].len()
            invariant
                k < parts@.len(),
                j <= parts@[k as int]@.len(),
                base@ == before + parts@[k as int]@.take(j as int),
            decreases parts[k as int]@.len() - j,
        {
            base.push(parts[k][j]);
            j += 1;
            assert(base@ =~= before + parts@[k as int]@.take(j as int));
        }
        assert(parts@[k as int]@.take(j as int) =~= parts@[k as int]@);
        k += 1;
        proof {
            let next = all.take(k as int);
            assert(next.drop_last() =~= prev);
            assert(next.last() == parts@[k - 1]@);
            if next.len() == 1 {
                assert(prev.len() == 0);
                assert(base@ =~= parts@[k - 1]@);
            } else {
                assert(base@ =~= join(prev, '_').push('_') + parts@[k - 1]@);
            }
        }
    }
    assert(all.take(parts@.len() - 1) =~= all);
    assert(base@ == join(sp.drop_last(), '_'));
    let mut m: usize = 0;
    while m < base.len()
        invariant
            m <= base@.len(),
            sp == split(s@, '_'),
            sp.len() > 1,
            all_digits(sp.last()),
            base@ == join(sp.drop_last(), '_'),
            forall|j: int| 0 <= j < m ==> base@[j] != '_',
        decreases base.len() - m,
    {
        if base[m] == '_' {
            assert(has_char(base@, '_'));
            return Some(base);
        }
        m += 1;
    }
    assert(!has_char(base@, '_'));
    None
}

pub fn push_trimmed_monster_keys(keys: &mut Vec<String>, key: &str)
    ensures
        texts(final(keys)@) == trimmed_keys(texts(old(keys)@), key@),
{
    let suffixes = literal_list4("_abyss", "_bp", "_bf", "_b");
    assert(views(suffixes@) =~= key_suffixes());
    let s = chars_of(key);
    let current = push_strip_chain(keys, &s, &suffixes);
    push_without_suffix(keys, &current, "_blue");
    push_without_suffix(keys, &current, "_red");
    push_before_marker(keys, &current, "_summon");
    push_before_marker(keys, &current, "_double_");
    match numbered_base_exec(&current) {
        Some(b) => push_unique_key(keys, string_of(&b)),
        None => {},
    }
}

/// `Boss_` in place of a leading `boss_`.
pub open spec fn titlecase_boss(key: Seq<char>) -> Seq<char> {
    if starts_with(key, "boss_"@) {
        "Boss_"@ + key.skip("boss_"@.len() as int)
    } else {
        key
    }
}

pub fn titlecase_boss_key(key: &str) -> (r: String)
    ensures
        r@ == titlecase_boss(key@),
{
    let v = chars_of(key);
    let p = chars_of("boss_");
    if starts_with_exec(&v, &p) {
        let mut out = owned("Boss_");
        let rest = chars_range(&v, p.len(), v.len());
        push_chars(&mut out, &rest);
        assert(rest@ =~= key@.skip("boss_"@.len() as int));
        out
    } else {
        owned(key)
    }
}

/// The canonical key, then its trimmed keys.
pub open spec fn image_keys(value: Seq<char>) -> Seq<Seq<char>> {
    let base = canonical_key(value);
    trimmed_keys(push_unique(Seq::empty(), base), base)
}

pub fn monster_image_keys(value: &str) -> (r: Vec<String>)
    ensures
        texts(r@) == image_keys(value@),
{
    let mut keys: Vec<String> = Vec::new();
    let base = canonical_monster_image_key(value);
    assert(texts(keys@) =~= Seq::<Seq<char>>::empty());
    push_unique_key(&mut keys, base.clone());
    push_trimmed_monster_keys(&mut keys, base.as_str());
    keys
}

/// The lower-cased stem, then the canonical key.
pub open spec fn resource_keys(value: Seq<char>) -> Seq<Seq<char>> {
    push_unique(push_unique(Seq::empty(), lower_ascii_seq(stem(value))), canonical_key(value))
}

pub fn monster_image_resource_keys(value: &str) -> (r: Vec<String>)
    ensures
        texts(r@) == resource_keys(value@),
{
    let mut keys: Vec<String> = Vec::new();
    let v = chars_of(value);
    let s = stem_chars(&v);
    let raw = lower_ascii_chars(&s);
    assert(texts(keys@) =~= Seq::<Seq<char>>::empty());
    push_unique_key(&mut keys, string_of(&raw));
    push_unique_key(&mut keys, canonical_monster_image_key(value));
    keys
}

/// The stem as written, then its trimmed stems.
pub open spec fn raw_case_stems(value: Seq<char>) -> Seq<Seq<char>> {
    let base = stem(value);
    trimmed_stems(push_unique(Seq::empty(), base), base)
}

pub fn raw_case_monster_image_stems(value: &str) -> (r: Vec<String>)
    ensures
        texts(r@) == raw_case_stems(value@),
{
    let mut stems: Vec<String> = Vec::new();
    let v = chars_of(value);
    let base = string_of(&stem_chars(&v));
    assert(texts(stems@) =~= Seq::<Seq<char>>::empty());
    push_unique_key(&mut stems, base.clone());
    push_trimmed_monster_stems(&mut stems, base.as_str());
    stems
}

/// The lower-cased stem, then its trimmed keys.
pub open spec fn raw_keys(value: Seq<char>) -> Seq<Seq<char>> {
    let base = lower_ascii_seq(stem(value));
    trimmed_keys(push_unique(Seq::empty(), base), base)
}

pub fn raw_monster_image_keys(value: &str) -> (r: Vec<String>)
    ensures
        texts(r@) == raw_keys(value@),
{
    let mut keys: Vec<String> = Vec::new();
    let v = chars_of(value);
    let base = string_of(&lower_ascii_chars(&stem_chars(&v)));
    assert(texts(keys@) =~= Seq::<Seq<char>>::empty());
    push_unique_key(&mut keys, base.clone());
    push_trimmed_monster_keys(&mut keys, base.as_str());
    keys
}

/// Each key followed by its `Boss_` form.
pub open spec fn with_boss_forms(stems: Seq<Seq<char>>, keys: Seq<Seq<char>>) -> Seq<Seq<char>>
    decreases keys.len(),
{
    if keys.len() == 0 {
        stems
    } else {
        with_boss_forms(
            push_unique(push_unique(stems, keys[0]), titlecase_boss(keys[0])),
            keys.drop_first(),
        )
    }
}

fn push_with_boss_forms(stems: &mut Vec<String>, keys: &Vec<String>)
    ensures
        texts(final(stems)@) == with_boss_forms(texts(old(stems)@), texts(keys@)),
{
    let mut i: usize = 0;
    assert(texts(keys@).skip(0) =~= texts(keys@));
    while i < keys.len()
        invariant
            i <= keys@.len(),
            with_boss_forms(texts(old(stems)@), texts(keys@)) == with_boss_forms(
                texts(stems@),
                texts(keys@).skip(i as int),
            ),
        decreases keys.len() - i,
    {
        let ghost rest = texts(keys@).skip(i as int);
        assert(rest[0] == keys@[i as int]@);
        assert(rest.drop_first() =~= texts(keys@).skip(i + 1));
        push_unique_key(stems, keys[i].clone());
        push_unique_key(stems, titlecase_boss_key(keys[i].as_str()));
        i += 1;
    }
    assert(texts(keys@).skip(i as int) =~= Seq::<Seq<char>>::empty());
}

/// The stems a portrait of `monster_id` may be stored under, in the order
/// they are tried: the stems as written, the lower-cased keys and their
/// `Boss_` forms, then the canonical keys and their `Boss_` forms.
pub open spec fn stem_candidates(monster_id: Seq<char>) -> Seq<Seq<char>> {
    with_boss_forms(
        with_boss_forms(push_all(Seq::empty(), raw_case_stems(monster_id)), raw_keys(monster_id)),
        image_keys(monster_id),
    )
}

pub fn monster_image_stem_candidates(monster_id: &str) -> (r: Vec<String>)
    ensures
        texts(r@) == stem_candidates(monster_id@),
{
    let mut stems: Vec<String> = Vec::new();
    let raw_case = raw_case_monster_image_stems(monster_id);
    let mut i: usize = 0;
    assert(texts(stems@) =~= Seq::<Seq<char>>::empty());
    assert(texts(raw_case@).skip(0) =~= texts(raw_case@));
    while i < raw_case.len()
        invariant
            i <= raw_case@.len(),
            push_all(Seq::empty(), texts(raw_case@)) == push_all(
                texts(stems@),
                texts(raw_case@).skip(i as int),
            ),
        decreases raw_case.len() - i,
    {
        let ghost rest = texts(raw_case@).skip(i as int);
        assert(rest[0] == raw_case@[i as int]@);
        assert(rest.drop_first() =~= texts(raw_case@).skip(i + 1));
        push_unique_key(&mut stems, raw_case[i].clone());
        i += 1;
    }
    assert(texts(raw_case@).skip(i as int) =~= Seq::<Seq<char>>::empty());
    let raw = raw_monster_image_keys(monster_id);
    push_with_boss_forms(&mut stems, &raw);
    let canonical = monster_image_keys(monster_id);
    push_with_boss_forms(&mut stems, &canonical);
    stems
}

// ---------------------------------------------------------------------------
// Distinct keys
// ---------------------------------------------------------------------------

proof fn lemma_push_all(keys: Seq<Seq<char>>, items: Seq<Seq<char>>)
    ensures
        distinct_keys(keys) ==> distinct_keys(push_all(keys, items)),
        keys.len() > 0 ==> push_all(keys, items).len() > 0 && push_all(keys, items)[0] == keys[0],
    decreases items.len(),
{
    if items.len() > 0 {
        lemma_push_unique(keys, items[0]);
        lemma_push_all(push_unique(keys, items[0]), items.drop_first());
    }
}

proof fn lemma_push_marker(keys: Seq<Seq<char>>, s: Seq<char>, marker: Seq<char>)
    ensures
        distinct_keys(keys) ==> distinct_keys(push_marker(keys, s, marker)),
        keys.len() > 0 ==> push_marker(keys, s, marker).len() > 0 && push_marker(keys, s, marker)[0]
            == keys[0],
{
    if let Some(b) = before_marker(s, marker) {
        lemma_push_unique(keys, b);
    }
}

proof fn lemma_trimmed_keys(keys: Seq<Seq<char>>, key: Seq<char>)
    ensures
        distinct_keys(keys) ==> distinct_keys(trimmed_keys(keys, key)),
        keys.len() > 0 ==> trimmed_keys(keys, key).len() > 0 && trimmed_keys(keys, key)[0] == keys[0],
{
    let chained = push_all(keys, strip_chain(key, key_suffixes()));
    let current = strip_all(key, key_suffixes());
    lemma_push_all(keys, strip_chain(key, key_suffixes()));
    lemma_push_unique(chained, current.take(current.len() - "_blue"@.len()));
    let k1 = if ends_with(current, "_blue"@) {
        push_unique(chained, current.take(current.len() - "_blue"@.len()))
    } else {
        chained
    };
    lemma_push_unique(k1, current.take(current.len() - "_red"@.len()));
    let k2 = if ends_with(current, "_red"@) {
        push_unique(k1, current.take(current.len() - "_red"@.len()))
    } else {
        k1
    };
    lemma_push_marker(k2, current, "_summon"@);
    let k3a = push_marker(k2, current, "_summon"@);
    lemma_push_marker(k3a, current, "_double_"@);
    let k3 = push_marker(k3a, current, "_double_"@);
    if let Some(b) = numbered_base(current) {
        lemma_push_unique(k3, b);
    }
}

proof fn lemma_trimmed_stems(keys: Seq<Seq<char>>, stem: Seq<char>)
    ensures
        distinct_keys(keys) ==> distinct_keys(trimmed_stems(keys, stem)),
        keys.len() > 0 ==> trimmed_stems(keys, stem).len() > 0 && trimmed_stems(keys, stem)[0] == keys[0],
{
    let chained = push_all(keys, strip_chain(stem, stem_suffixes()));
    let current = strip_all(stem, stem_suffixes());
    lemma_push_all(keys, strip_chain(stem, stem_suffixes()));
    let a = push_marker(chained, current, "_summon"@);
    let b = push_marker(a, current, "_Summon"@);
    let c = push_marker(b, current, "_double_"@);
    lemma_push_marker(chained, current, "_summon"@);
    lemma_push_marker(a, current, "_Summon"@);
    lemma_push_marker(b, current, "_double_"@);
    lemma_push_marker(c, current, "_Double_"@);
}

proof fn lemma_with_boss_forms(stems: Seq<Seq<char>>, keys: Seq<Seq<char>>)
    ensures
        distinct_keys(stems) ==> distinct_keys(with_boss_forms(stems, keys)),
    decreases keys.len(),
{
    if keys.len() > 0 {
        lemma_push_unique(stems, keys[0]);
        lemma_push_unique(push_unique(stems, keys[0]), titlecase_boss(keys[0]));
        lemma_with_boss_forms(
            push_unique(push_unique(stems, keys[0]), titlecase_boss(keys[0])),
            keys.drop_first(),
        );
    }
}

/// No key list names a stem twice, and each list of keys starts with the key
/// it is derived from (the canonical key, the lower-cased stem, the stem as
/// written).
pub proof fn lemma_image_keys_distinct(value: Seq<char>)
    ensures
        distinct_keys(image_keys(value)),
        image_keys(value)[0] == canonical_key(value),
        distinct_keys(resource_keys(value)),
        resource_keys(value)[0] == lower_ascii_seq(stem(value)),
        distinct_keys(raw_keys(value)),
        raw_keys(value)[0] == lower_ascii_seq(stem(value)),
        distinct_keys(raw_case_stems(value)),
        raw_case_stems(value)[0] == stem(value),
        distinct_keys(stem_candidates(value)),
{
    let empty = Seq::<Seq<char>>::empty();
    assert(distinct_keys(empty));
    lemma_push_unique(empty, canonical_key(value));
    lemma_trimmed_keys(push_unique(empty, canonical_key(value)), canonical_key(value));
    let lower = lower_ascii_seq(stem(value));
    lemma_push_unique(empty, lower);
    lemma_push_unique(push_unique(empty, lower), canonical_key(value));
    lemma_trimmed_keys(push_unique(empty, lower), lower);
    lemma_push_unique(empty, stem(value));
    lemma_trimmed_stems(push_unique(empty, stem(value)), stem(value));
    lemma_push_all(empty, raw_case_stems(value));
    lemma_with_boss_forms(push_all(empty, raw_case_stems(value)), raw_keys(value));
    lemma_with_boss_forms(
        with_boss_forms(push_all(empty, raw_case_stems(value)), raw_keys(value)),
        image_keys(value),
    );
}

} // verus!
