//! Stepping through search matches and locating a match by byte offset in
//! UTF-8 text: byte offsets, character indices and line/column positions.
//!
//! A text is modelled as its characters; the byte offset of the `k`-th
//! character is the total UTF-8 width of the characters before it.
use vstd::prelude::*;

use crate::text::{chars_of, trim, trim_chars};

verus! {

// ---------------------------------------------------------------------------
// Stepping through matches
// ---------------------------------------------------------------------------

/// The match after `current`, wrapping to the first; the first when nothing
/// is selected; nothing when there are no matches.
pub open spec fn next_match(current: Option<usize>, len: usize) -> Option<usize> {
    if len == 0 {
        None
    } else {
        match current {
            None => Some(0),
            Some(i) => Some(((i + 1) % (len as int)) as usize),
        }
    }
}

/// The match before `current`, wrapping to the last; the last when nothing
/// is selected; nothing when there are no matches.
pub open spec fn previous_match(current: Option<usize>, len: usize) -> Option<usize> {
    if len == 0 {
        None
    } else {
        match current {
            None => Some((len - 1) as usize),
            Some(i) => if i == 0 {
                Some((len - 1) as usize)
            } else {
                Some((i - 1) as usize)
            },
        }
    }
}

pub fn next_search_match(current: Option<usize>, len: usize) -> (r: Option<usize>)
    requires
        current matches Some(i) ==> i < usize::MAX,
    ensures
        r == next_match(current, len),
{
    if len == 0 {
        None
    } else {
        match current {
            None => Some(0),
            Some(index) => Some((index + 1) % len),
        }
    }
}

pub fn previous_search_match(current: Option<usize>, len: usize) -> (r: Option<usize>)
    ensures
        r == previous_match(current, len),
{
    if len == 0 {
        None
    } else {
        match current {
            None => Some(len - 1),
            Some(index) => if index == 0 {
                Some(len - 1)
            } else {
                Some(index - 1)
            },
        }
    }
}

/// Stepping forward then back, or back then forward, returns to the match
/// that was selected; either step from any selection lands on a match.
pub proof fn lemma_search_steps_invert(i: usize, len: usize)
    requires
        i < len,
    ensures
        previous_match(next_match(Some(i), len), len) == Some(i),
        next_match(previous_match(Some(i), len), len) == Some(i),
        next_match(Some(i), len) matches Some(j) && j < len,
        previous_match(Some(i), len) matches Some(j) && j < len,
        next_match(None, len) == Some(0usize),
        previous_match(None, len) == Some((len - 1) as usize),
{
    if i + 1 < len {
        assert((i + 1) % (len as int) == i + 1) by (nonlinear_arith)
            requires
                0 <= i + 1 < len,
        ;
    } else {
        assert((i + 1) % (len as int) == 0) by (nonlinear_arith)
            requires
                i + 1 == len,
                len > 0,
        ;
    }
    if i == 0 {
        assert(((len - 1) + 1) % (len as int) == 0) by (nonlinear_arith)
            requires
                len > 0,
        ;
    } else {
        assert(((i - 1) + 1) % (len as int) == i) by (nonlinear_arith)
            requires
                0 < i < len,
        ;
    }
}

// ---------------------------------------------------------------------------
// UTF-8 widths and byte offsets
// ---------------------------------------------------------------------------

/// The number of bytes of `c` in UTF-8 (`char::len_utf8`).
pub open spec fn utf8_width(c: char) -> nat {
    if (c as u32) <= 0x7F {
        1
    } else if (c as u32) <= 0x7FF {
        2
    } else if (c as u32) <= 0xFFFF {
        3
    } else {
        4
    }
}

/// The number of bytes of `s` in UTF-8.
pub open spec fn byte_len(s: Seq<char>) -> nat
    decreases s.len(),
{
    if s.len() == 0 {
        0
    } else {
        utf8_width(s[0]) + byte_len(s.drop_first())
    }
}

/// The byte offset of the `k`-th character of `s`.
pub open spec fn prefix_bytes(s: Seq<char>, k: int) -> nat {
    byte_len(s.take(k))
}

/// `b` is the byte offset of a character of `s`, or of its end
/// (`str::is_char_boundary`).
pub open spec fn is_boundary(s: Seq<char>, b: int) -> bool {
    exists|k: int| 0 <= k <= s.len() && prefix_bytes(s, k) == b
}

/// The index of the character that starts at byte `b` (its count of
/// characters before it), for a boundary `b`.
pub open spec fn char_index(s: Seq<char>, b: int) -> int {
    choose|k: int| 0 <= k <= s.len() && prefix_bytes(s, k) == b
}

pub proof fn lemma_byte_len_concat(a: Seq<char>, b: Seq<char>)
    ensures
        byte_len(a + b) == byte_len(a) + byte_len(b),
    decreases a.len(),
{
    if a.len() == 0 {
        assert(a + b =~= b);
    } else {
        assert((a + b).drop_first() =~= a.drop_first() + b);
        assert((a + b)[0] == a[0]);
        lemma_byte_len_concat(a.drop_first(), b);
    }
}

pub proof fn lemma_prefix_step(s: Seq<char>, k: int)
    requires
        0 <= k < s.len(),
    ensures
        prefix_bytes(s, k + 1) == prefix_bytes(s, k) + utf8_width(s[k]),
{
    assert(s.take(k + 1) =~= s.take(k) + seq![s[k]]);
    lemma_byte_len_concat(s.take(k), seq![s[k]]);
    let one = seq![s[k]];
    assert(one.drop_first() =~= Seq::<char>::empty());
    assert(byte_len(one.drop_first()) == 0);
    assert(one[0] == s[k]);
    assert(byte_len(one) == utf8_width(s[k]));
}

/// Byte offsets grow strictly with the character index.
pub proof fn lemma_prefix_increasing(s: Seq<char>, i: int, j: int)
    requires
        0 <= i < j <= s.len(),
    ensures
        prefix_bytes(s, i) < prefix_bytes(s, j),
    decreases j - i,
{
    lemma_prefix_step(s, j - 1);
    if i < j - 1 {
        lemma_prefix_increasing(s, i, j - 1);
    }
}

pub proof fn lemma_prefix_full(s: Seq<char>)
    ensures
        prefix_bytes(s, s.len() as int) == byte_len(s),
{
    assert(s.take(s.len() as int) =~= s);
}

/// A boundary starts exactly one character index.
pub proof fn lemma_char_index_unique(s: Seq<char>, k: int)
    requires
        0 <= k <= s.len(),
    ensures
        is_boundary(s, prefix_bytes(s, k) as int),
        char_index(s, prefix_bytes(s, k) as int) == k,
{
    let b = prefix_bytes(s, k) as int;
    assert(0 <= k <= s.len() && prefix_bytes(s, k) == b);
    let c = char_index(s, b);
    if c < k {
        lemma_prefix_increasing(s, c, k);
    } else if k < c {
        lemma_prefix_increasing(s, k, c);
    }
}

/// `str::len` counts the bytes of the UTF-8 encoding.
pub proof fn lemma_encoded_len(s: Seq<char>)
    ensures
        vstd::utf8::encode_utf8(s).len() == byte_len(s),
    decreases s.len(),
{
    if s.len() > 0 {
        vstd::utf8::char_is_scalar(s[0]);
        lemma_encoded_len(s.drop_first());
    }
}

fn char_width(c: char) -> (w: usize)
    ensures
        w == utf8_width(c),
{
    let u = c as u32;
    if u <= 0x7F {
        1
    } else if u <= 0x7FF {
        2
    } else if u <= 0xFFFF {
        3
    } else {
        4
    }
}

/// The byte length of `text` (`str::len`).
fn text_byte_len(text: &str) -> (n: usize)
    requires
        byte_len(text@) <= usize::MAX,
    ensures
        n == byte_len(text@),
{
    proof {
        lemma_encoded_len(text@);
    }
    text.len()
}

/// The byte length of `v`.
pub fn chars_byte_len(v: &Vec<char>) -> (n: usize)
    requires
        byte_len(v@) <= usize::MAX,
    ensures
        n == byte_len(v@),
{
    let mut n: usize = 0;
    let mut k: usize = 0;
    while k < v.len()
        invariant
            k <= v@.len(),
            n == prefix_bytes(v@, k as int),
            byte_len(v@) <= usize::MAX,
        decreases v.len() - k,
    {
        proof {
            lemma_prefix_step(v@, k as int);
            lemma_prefix_full(v@);
            if k + 1 < v@.len() {
                lemma_prefix_increasing(v@, k + 1, v@.len() as int);
            }
        }
        n = n + char_width(v[k]);
        k += 1;
    }
    proof {
        lemma_prefix_full(v@);
    }
    n
}

/// Scans `v` for the character that starts at byte `target`: returns the
/// first index whose offset is not below `target`, and that offset.
fn scan_to_byte(v: &Vec<char>, target: usize) -> (r: (usize, usize))
    requires
        byte_len(v@) <= usize::MAX,
    ensures
        r.0 <= v@.len(),
        r.1 == prefix_bytes(v@, r.0 as int),
        r.1 == target ==> char_index(v@, target as int) == r.0,
        is_boundary(v@, target as int) <==> r.1 == target,
{
    let mut k: usize = 0;
    let mut sum: usize = 0;
    assert(v@.take(0) =~= Seq::<char>::empty());
    while sum < target && k < v.len()
        invariant
            k <= v@.len(),
            sum == prefix_bytes(v@, k as int),
            byte_len(v@) <= usize::MAX,
            k > 0 ==> prefix_bytes(v@, k - 1) < target,
        decreases v.len() - k,
    {
        proof {
            lemma_prefix_step(v@, k as int);
            lemma_prefix_full(v@);
            if k + 1 < v@.len() {
                lemma_prefix_increasing(v@, k + 1, v@.len() as int);
            }
        }
        sum = sum + char_width(v[k]);
        k += 1;
    }
    proof {
        lemma_char_index_unique(v@, k as int);
        if sum != target {
            assert forall|j: int| 0 <= j <= v@.len() implies prefix_bytes(v@, j) != target by {
                if j < k {
                    if j < k - 1 {
                        lemma_prefix_increasing(v@, j, k - 1);
                    }
                } else if j > k {
                    lemma_prefix_increasing(v@, k as int, j);
                }
            }
        }
    }
    (k, sum)
}

/// Whether byte `b` starts a character of `v` or is its end.
fn char_boundary(v: &Vec<char>, b: usize) -> (r: bool)
    requires
        byte_len(v@) <= usize::MAX,
    ensures
        r == is_boundary(v@, b as int),
{
    let (_, sum) = scan_to_byte(v, b);
    sum == b
}

/// The smaller of `b` and `n`.
pub open spec fn clamp(b: int, n: int) -> int {
    if b < n {
        b
    } else {
        n
    }
}

/// The number of characters before byte `byte_index`, clamped to the end of
/// `text`.
pub fn byte_to_char_index(text: &str, byte_index: usize) -> (r: usize)
    requires
        byte_len(text@) <= usize::MAX,
        is_boundary(text@, clamp(byte_index as int, byte_len(text@) as int)),
    ensures
        r == char_index(text@, clamp(byte_index as int, byte_len(text@) as int)),
        prefix_bytes(text@, r as int) == clamp(byte_index as int, byte_len(text@) as int),
        r <= text@.len(),
{
    let len = text_byte_len(text);
    let target = if byte_index < len {
        byte_index
    } else {
        len
    };
    let v = chars_of(text);
    let (k, _) = scan_to_byte(&v, target);
    k
}

/// The byte offset `n` characters after byte `b`, when `b` is a boundary and
/// that many characters follow it.
pub open spec fn after_chars(s: Seq<char>, b: int, n: int) -> Option<int> {
    if is_boundary(s, b) && char_index(s, b) + n <= s.len() {
        Some(prefix_bytes(s, char_index(s, b) + n) as int)
    } else {
        None
    }
}

pub fn byte_index_after_chars(text: &str, byte_index: usize, char_count: usize) -> (r: Option<
    usize,
>)
    requires
        byte_len(text@) <= usize::MAX,
    ensures
        r is None <==> after_chars(text@, byte_index as int, char_count as int) is None,
        r matches Some(e) ==> after_chars(text@, byte_index as int, char_count as int) == Some(
            e as int,
        ),
{
    let v = chars_of(text);
    let (k, sum) = scan_to_byte(&v, byte_index);
    if sum != byte_index {
        return None;
    }
    if char_count > v.len() - k {
        return None;
    }
    let stop = k + char_count;
    let mut j: usize = k;
    let mut end: usize = sum;
    while j < stop
        invariant
            k <= j <= stop <= v@.len(),
            end == prefix_bytes(v@, j as int),
            byte_len(v@) <= usize::MAX,
        decreases stop - j,
    {
        proof {
            lemma_prefix_step(v@, j as int);
            lemma_prefix_full(v@);
            if j + 1 < v@.len() {
                lemma_prefix_increasing(v@, j + 1, v@.len() as int);
            }
        }
        end = end + char_width(v[j]);
        j += 1;
    }
    Some(end)
}

/// Moving `n` characters on from a boundary lands on the boundary of the
/// character `n` further on, when there is one.
pub proof fn lemma_after_chars_advances(s: Seq<char>, k: int, n: int)
    requires
        0 <= k,
        0 <= n,
        k + n <= s.len(),
    ensures
        after_chars(s, prefix_bytes(s, k) as int, n) == Some(prefix_bytes(s, k + n) as int),
        is_boundary(s, prefix_bytes(s, k + n) as int),
        char_index(s, prefix_bytes(s, k + n) as int) == k + n,
{
    lemma_char_index_unique(s, k);
    lemma_char_index_unique(s, k + n);
}

// ---------------------------------------------------------------------------
// Lines and columns
// ---------------------------------------------------------------------------

/// The number of `'\n'` in `s`.
pub open spec fn newline_count(s: Seq<char>) -> nat
    decreases s.len(),
{
    if s.len() == 0 {
        0
    } else if s.last() == '\n' {
        newline_count(s.drop_last()) + 1
    } else {
        newline_count(s.drop_last())
    }
}

/// The number of characters after the last `'\n'` of `s` (all of them when it
/// has none).
pub open spec fn last_line_len(s: Seq<char>) -> nat
    decreases s.len(),
{
    if s.len() == 0 {
        0
    } else if s.last() == '\n' {
        0
    } else {
        last_line_len(s.drop_last()) + 1
    }
}

pub proof fn lemma_line_counts_bounded(s: Seq<char>)
    ensures
        newline_count(s) <= s.len(),
        last_line_len(s) <= s.len(),
    decreases s.len(),
{
    if s.len() > 0 {
        lemma_line_counts_bounded(s.drop_last());
    }
}

/// The 1-based line and column of byte `byte_index` of `text`, clamped to its
/// end. (A `'\n'` byte occurs in UTF-8 only as the character `'\n'`.)
pub fn line_column_for_byte(text: &str, byte_index: usize) -> (r: (usize, usize))
    requires
        byte_len(text@) < usize::MAX,
        is_boundary(text@, clamp(byte_index as int, byte_len(text@) as int)),
    ensures
        r.0 == newline_count(
            text@.take(char_index(text@, clamp(byte_index as int, byte_len(text@) as int))),
        ) + 1,
        r.1 == last_line_len(
            text@.take(char_index(text@, clamp(byte_index as int, byte_len(text@) as int))),
        ) + 1,
{
    let k = byte_to_char_index(text, byte_index);
    let v = chars_of(text);
    let mut lines: usize = 0;
    let mut column: usize = 0;
    let mut i: usize = 0;
    assert(v@.take(0) =~= Seq::<char>::empty());
    while i < k
        invariant
            i <= k <= v@.len(),
            lines == newline_count(v@.take(i as int)),
            column == last_line_len(v@.take(i as int)),
        decreases k - i,
    {
        proof {
            assert(v@.take(i + 1).drop_last() =~= v@.take(i as int));
            lemma_line_counts_bounded(v@.take(i as int));
        }
        if v[i] == '\n' {
            lines = lines + 1;
            column = 0;
        } else {
            column = column + 1;
        }
        i += 1;
    }
    proof {
        lemma_line_counts_bounded(v@.take(k as int));
        // every character takes at least one byte
        lemma_chars_within_bytes(v@.take(k as int));
        lemma_byte_len_concat(v@.take(k as int), v@.skip(k as int));
        assert(v@.take(k as int) + v@.skip(k as int) =~= v@);
    }
    (lines + 1, column + 1)
}

pub proof fn lemma_chars_within_bytes(s: Seq<char>)
    ensures
        s.len() <= byte_len(s),
    decreases s.len(),
{
    if s.len() > 0 {
        lemma_chars_within_bytes(s.drop_first());
    }
}

// ---------------------------------------------------------------------------
// Highlighting a match
// ---------------------------------------------------------------------------

/// The byte range `[m, e)` a match of the trimmed query at byte `m` covers:
/// as many characters as the query has (or, when fewer follow, as many bytes
/// as the query has), clamped to the text; none when the query is blank or
/// either end is not a boundary.
pub open spec fn match_byte_range(s: Seq<char>, query: Seq<char>, m: int) -> Option<(int, int)> {
    let q = trim(query);
    if q.len() == 0 {
        None
    } else {
        let wanted = match after_chars(s, m, q.len() as int) {
            Some(e) => e,
            None => m + byte_len(q),
        };
        let e = clamp(wanted, byte_len(s) as int);
        if m < e && is_boundary(s, m) && is_boundary(s, e) {
            Some((m, e))
        } else {
            None
        }
    }
}

pub fn encrypted_ini_match_byte_range(text: &str, query: &str, match_index: usize) -> (r: Option<
    (usize, usize),
>)
    requires
        byte_len(text@) <= usize::MAX,
        match_index + byte_len(trim(query@)) <= usize::MAX,
    ensures
        r is None <==> match_byte_range(text@, query@, match_index as int) is None,
        r matches Some(p) ==> match_byte_range(text@, query@, match_index as int) == Some(
            (p.0 as int, p.1 as int),
        ),
{
    let qv = chars_of(query);
    let q = trim_chars(&qv);
    if q.len() == 0 {
        return None;
    }
    let q_bytes = chars_byte_len(&q);
    let len = text_byte_len(text);
    let wanted = match byte_index_after_chars(text, match_index, q.len()) {
        Some(e) => e,
        None => match_index + q_bytes,
    };
    let end = if wanted < len {
        wanted
    } else {
        len
    };
    let v = chars_of(text);
    if match_index < end && char_boundary(&v, match_index) && char_boundary(&v, end) {
        Some((match_index, end))
    } else {
        None
    }
}

} // verus!
