//! Colours chosen by data: `#rrggbb` table colours, and stable palette
//! positions hashed from a monster id or a character's id.
use vstd::prelude::*;
use std::collections::HashMap;

use crate::combat::CharacterInfo;
use crate::search::{byte_len, byte_to_char_index, char_index, is_boundary};
use crate::text::{chars_of, chars_range, decimal, decimal_chars, string_of, strip_prefix};

verus! {

// ---------------------------------------------------------------------------
// Hex colours
// ---------------------------------------------------------------------------

/// The value of a hexadecimal digit.
pub open spec fn hex_value(c: char) -> Option<u8> {
    if '0' <= c && c <= '9' {
        Some((c as u32 - '0' as u32) as u8)
    } else if 'a' <= c && c <= 'f' {
        Some((c as u32 - 'a' as u32 + 10) as u8)
    } else if 'A' <= c && c <= 'F' {
        Some((c as u32 - 'A' as u32 + 10) as u8)
    } else {
        None
    }
}

/// The value of at most two hexadecimal digits.
pub open spec fn hex_digits_value(s: Seq<char>) -> Option<u8> {
    if s.len() == 1 {
        hex_value(s[0])
    } else if s.len() == 2 {
        match (hex_value(s[0]), hex_value(s[1])) {
            (Some(h), Some(l)) => Some((h * 16 + l) as u8),
            _ => None,
        }
    } else {
        None
    }
}

/// `u8::from_str_radix(s, 16)` for a text of at most two characters: an
/// optional `+`, then one or two hexadecimal digits.
pub open spec fn hex_byte(s: Seq<char>) -> Option<u8> {
    if s.len() > 0 && s[0] == '+' {
        hex_digits_value(s.drop_first())
    } else {
        hex_digits_value(s)
    }
}

/// The text after a leading `#`, if any.
pub open spec fn without_hash(value: Seq<char>) -> Seq<char> {
    match strip_prefix(value, "#"@) {
        Some(rest) => rest,
        None => value,
    }
}

/// A colour written `rrggbb` or `#rrggbb`: six bytes, each pair a
/// hexadecimal byte.
pub open spec fn hex_color(value: Seq<char>) -> Option<(u8, u8, u8)> {
    let v = without_hash(value);
    if byte_len(v) != 6 {
        None
    } else {
        let i2 = char_index(v, 2);
        let i4 = char_index(v, 4);
        match (hex_byte(v.subrange(0, i2)), hex_byte(v.subrange(i2, i4)), hex_byte(v.skip(i4))) {
            (Some(r), Some(g), Some(b)) => Some((r, g, b)),
            _ => None,
        }
    }
}

/// A six-byte text is cut at bytes 2 and 4 without splitting a character.
pub open spec fn cuttable(value: Seq<char>) -> bool {
    let v = without_hash(value);
    byte_len(v) == 6 ==> is_boundary(v, 2) && is_boundary(v, 4)
}

fn hex_value_exec(c: char) -> (r: Option<u8>)
    ensures
        r == hex_value(c),
{
    if '0' <= c && c <= '9' {
        Some((c as u32 - '0' as u32) as u8)
    } else if 'a' <= c && c <= 'f' {
        Some((c as u32 - 'a' as u32 + 10) as u8)
    } else if 'A' <= c && c <= 'F' {
        Some((c as u32 - 'A' as u32 + 10) as u8)
    } else {
        None
    }
}

fn hex_byte_exec(s: &Vec<char>) -> (r: Option<u8>)
    ensures
        r == hex_byte(s@),
{
    let digits = if s.len() > 0 && s[0] == '+' {
        chars_range(s, 1, s.len())
    } else {
        chars_range(s, 0, s.len())
    };
    assert(s@.len() > 0 && s@[0] == '+' ==> digits@ =~= s@.drop_first());
    assert(!(s@.len() > 0 && s@[0] == '+') ==> digits@ =~= s@);
    if digits.len() == 1 {
        hex_value_exec(digits[0])
    } else if digits.len() == 2 {
        match (hex_value_exec(digits[0]), hex_value_exec(digits[1])) {
            (Some(h), Some(l)) => Some(h * 16 + l),
            _ => None,
        }
    } else {
        None
    }
}

/// The colour of a `rrggbb` or `#rrggbb` text (as red, green, blue).
pub fn parse_hex_color(value: &str) -> (r: Option<(u8, u8, u8)>)
    requires
        byte_len(value@) <= usize::MAX,
        cuttable(value@),
    ensures
        r == hex_color(value@),
{
    let all = chars_of(value);
    let start: usize = if all.len() > 0 && all[0] == '#' {
        1
    } else {
        0
    };
    let v = chars_range(&all, start, all.len());
    proof {
        reveal_strlit("#");
        if start == 1 {
            assert(value@.take(1) =~= "#"@);
            assert(v@ =~= value@.skip(1));
        } else {
            assert(v@ =~= value@);
            if value@.len() > 0 {
                assert(value@.take(1)[0] != '#');
            }
        }
        assert(v@ == without_hash(value@));
        crate::search::lemma_byte_len_concat(value@.take(start as int), v@);
        assert(value@ =~= value@.take(start as int) + v@);
    }
    let text = string_of(&v);
    let len = crate::search::chars_byte_len(&v);
    if len != 6 {
        return None;
    }
    let i2 = byte_to_char_index(text.as_str(), 2);
    let i4 = byte_to_char_index(text.as_str(), 4);
    proof {
        if i4 < i2 {
            crate::search::lemma_prefix_increasing(v@, i4 as int, i2 as int);
        }
    }
    let red = hex_byte_exec(&chars_range(&v, 0, i2));
    let green = hex_byte_exec(&chars_range(&v, i2, i4));
    let blue = hex_byte_exec(&chars_range(&v, i4, v.len()));
    assert(v@.subrange(i4 as int, v@.len() as int) =~= v@.skip(i4 as int));
    match (red, green, blue) {
        (Some(r), Some(g), Some(b)) => Some((r, g, b)),
        _ => None,
    }
}

// ---------------------------------------------------------------------------
// Palette positions
// ---------------------------------------------------------------------------

/// The multiplicative hash of `bytes` (`h * 31 + byte`, wrapping).
pub open spec fn monster_hash(bytes: Seq<u8>) -> usize
    decreases bytes.len(),
{
    if bytes.len() == 0 {
        0
    } else {
        vstd::wrapping::usize_specs::wrapping_add(
            vstd::wrapping::usize_specs::wrapping_mul(monster_hash(bytes.drop_last()), 31),
            bytes.last() as usize,
        )
    }
}

/// The position of a monster's colour in a palette of eight, from the
/// UTF-8 bytes of its id.
pub fn monster_palette_index(monster_id: &str) -> (r: usize)
    ensures
        r == monster_hash(vstd::utf8::encode_utf8(monster_id@)) % 8,
        r < 8,
{
    let bytes = monster_id.as_bytes();
    let mut hash: usize = 0;
    let mut i: usize = 0;
    assert(bytes@.take(0) =~= Seq::<u8>::empty());
    while i < bytes.len()
        invariant
            i <= bytes@.len(),
            hash == monster_hash(bytes@.take(i as int)),
        decreases bytes.len() - i,
    {
        assert(bytes@.take(i + 1).drop_last() =~= bytes@.take(i as int));
        hash = hash.wrapping_mul(31).wrapping_add(bytes[i] as usize);
        i += 1;
    }
    assert(bytes@.take(bytes@.len() as int) =~= bytes@);
    hash % 8
}

/// The FNV-1a hash of `bytes`.
pub open spec fn fnv_hash(bytes: Seq<u8>) -> u64
    decreases bytes.len(),
{
    if bytes.len() == 0 {
        0xcbf29ce484222325
    } else {
        vstd::wrapping::u64_specs::wrapping_mul(
            fnv_hash(bytes.drop_last()) ^ (bytes.last() as u64),
            0x100000001b3,
        )
    }
}

/// The bytes of an ASCII text.
pub open spec fn ascii_bytes(s: Seq<char>) -> Seq<u8> {
    s.map_values(|c: char| c as u8)
}

/// The fallback colour of a character in a palette of twelve, hashed from
/// "<id>:<position>" (an ASCII text, whose bytes are its characters).
pub open spec fn fallback_color_index(char_id: u32, fallback_index: usize) -> usize {
    ((fnv_hash(ascii_bytes(decimal(char_id as nat) + ":"@ + decimal(fallback_index as nat))) as usize)
        % 12) as usize
}

/// A character's colour: the one its table row gives, else a palette position.
#[derive(Clone, Copy, Debug, PartialEq, Eq, Structural)]
pub enum CharacterColor {
    Table(u8, u8, u8),
    Fallback(usize),
}

fn push_ascii(bytes: &mut Vec<u8>, chars: &Vec<char>)
    ensures
        final(bytes)@ == old(bytes)@ + ascii_bytes(chars@),
{
    let mut i: usize = 0;
    while i < chars.len()
        invariant
            i <= chars@.len(),
            bytes@ == old(bytes)@ + ascii_bytes(chars@.take(i as int)),
        decreases chars.len() - i,
    {
        bytes.push(chars[i] as u8);
        i += 1;
        assert(bytes@ =~= old(bytes)@ + ascii_bytes(chars@.take(i as int)));
    }
    assert(chars@.take(chars@.len() as int) =~= chars@);
}

pub fn deterministic_fallback_index(char_id: u32, fallback_index: usize) -> (r: usize)
    ensures
        r == fallback_color_index(char_id, fallback_index),
        r < 12,
{
    let mut bytes: Vec<u8> = Vec::new();
    let id_digits = decimal_chars(char_id as u64);
    let colon = chars_of(":");
    let index_digits = decimal_chars(fallback_index as u64);
    push_ascii(&mut bytes, &id_digits);
    push_ascii(&mut bytes, &colon);
    push_ascii(&mut bytes, &index_digits);
    proof {
        let whole = decimal(char_id as nat) + ":"@ + decimal(fallback_index as nat);
        assert(ascii_bytes(whole) =~= ascii_bytes(decimal(char_id as nat)) + ascii_bytes(":"@)
            + ascii_bytes(decimal(fallback_index as nat)));
        assert(bytes@ == ascii_bytes(whole));
    }
    let mut hash: u64 = 0xcbf29ce484222325;
    let mut i: usize = 0;
    assert(bytes@.take(0) =~= Seq::<u8>::empty());
    while i < bytes.len()
        invariant
            i <= bytes@.len(),
            hash == fnv_hash(bytes@.take(i as int)),
        decreases bytes.len() - i,
    {
        assert(bytes@.take(i + 1).drop_last() =~= bytes@.take(i as int));
        hash = (hash ^ (bytes[i] as u64)).wrapping_mul(0x100000001b3);
        i += 1;
    }
    assert(bytes@.take(bytes@.len() as int) =~= bytes@);
    (hash as usize) % 12
}

/// The colour of character `char_id`: its table colour when it has one that
/// parses, else the fallback palette position.
pub open spec fn character_color_of(
    char_id: u32,
    characters: Map<u32, CharacterInfo>,
    fallback_index: usize,
) -> CharacterColor {
    let table = if characters.contains_key(char_id) {
        match characters[char_id].color {
            Some(c) => hex_color(c@),
            None => None,
        }
    } else {
        None
    };
    match table {
        Some((r, g, b)) => CharacterColor::Table(r, g, b),
        None => CharacterColor::Fallback(fallback_color_index(char_id, fallback_index)),
    }
}

pub fn character_color(char_id: u32, characters: &HashMap<u32, CharacterInfo>, fallback_index: usize) -> (r:
    CharacterColor)
    requires
        characters@.contains_key(char_id) ==> (characters@[char_id].color matches Some(c) ==> cuttable(c@)
            && byte_len(c@) <= usize::MAX),
    ensures
        r == character_color_of(char_id, characters@, fallback_index),
{
    match characters.get(&char_id) {
        Some(row) => match &row.color {
            Some(value) => match parse_hex_color(value.as_str()) {
                Some((r, g, b)) => return CharacterColor::Table(r, g, b),
                None => {},
            },
            None => {},
        },
        None => {},
    }
    CharacterColor::Fallback(deterministic_fallback_index(char_id, fallback_index))
}

} // verus!
