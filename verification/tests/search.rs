use nte_dps_core::search::{
    byte_index_after_chars, byte_to_char_index, encrypted_ini_match_byte_range,
    line_column_for_byte, next_search_match, previous_search_match,
};

#[test]
fn search_steps_wrap_around_the_matches() {
    assert_eq!(next_search_match(None, 3), Some(0));
    assert_eq!(next_search_match(Some(1), 3), Some(2));
    assert_eq!(next_search_match(Some(2), 3), Some(0));
    assert_eq!(next_search_match(Some(0), 0), None);
    assert_eq!(previous_search_match(None, 3), Some(2));
    assert_eq!(previous_search_match(Some(0), 3), Some(2));
    assert_eq!(previous_search_match(Some(2), 3), Some(1));
    assert_eq!(previous_search_match(None, 0), None);
}

#[test]
fn stepping_forward_then_back_returns_to_the_selection() {
    for len in 1..6usize {
        for index in 0..len {
            let forward = next_search_match(Some(index), len);
            assert_eq!(previous_search_match(forward, len), Some(index));
            let back = previous_search_match(Some(index), len);
            assert_eq!(next_search_match(back, len), Some(index));
        }
    }
}

#[test]
fn byte_offsets_count_utf8_widths() {
    let text = "a\u{2192}b";
    assert_eq!(text.len(), 5);
    assert_eq!(byte_to_char_index(text, 0), 0);
    assert_eq!(byte_to_char_index(text, 1), 1);
    assert_eq!(byte_to_char_index(text, 4), 2);
    assert_eq!(byte_to_char_index(text, 100), 3);
    assert_eq!(byte_to_char_index("\u{1F600}x", 4), 1);
}

#[test]
fn characters_after_a_byte_offset() {
    let text = "a\u{2192}b";
    assert_eq!(byte_index_after_chars(text, 1, 1), Some(4));
    assert_eq!(byte_index_after_chars(text, 0, 3), Some(5));
    assert_eq!(byte_index_after_chars(text, 0, 4), None);
    assert_eq!(byte_index_after_chars(text, 2, 1), None);
    assert_eq!(byte_index_after_chars(text, 5, 0), Some(5));
    assert_eq!(byte_index_after_chars(text, 6, 0), None);
    assert_eq!(byte_index_after_chars(text, 1, 0), Some(1));
}

#[test]
fn lines_and_columns_are_one_based() {
    assert_eq!(line_column_for_byte("ab\ncd", 4), (2, 2));
    assert_eq!(line_column_for_byte("ab\ncd", 0), (1, 1));
    assert_eq!(line_column_for_byte("ab\n", 3), (2, 1));
    assert_eq!(line_column_for_byte("ab", 10), (1, 3));
    assert_eq!(line_column_for_byte("\u{2192}\u{2192}", 3), (1, 2));
}

#[test]
fn match_ranges_cover_the_trimmed_query() {
    let text = "bUseHDR=True\nHDRDisplay=1";
    assert_eq!(encrypted_ini_match_byte_range(text, " hdr ", 4), Some((4, 7)));
    assert_eq!(&text[4..7], "HDR");
    assert_eq!(encrypted_ini_match_byte_range("ab", "xyz", 1), Some((1, 2)));
    assert_eq!(encrypted_ini_match_byte_range("a\u{2192}b", "x", 2), None);
    assert_eq!(encrypted_ini_match_byte_range("abc", "   ", 0), None);
    assert_eq!(encrypted_ini_match_byte_range("abc", "c", 3), None);
}
