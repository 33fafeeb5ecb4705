use vt_client::text::{chars_of, find_in, parse_usize_in, range_eq, split_bounds, str_eq, trim_bounds};

#[test]
fn trimming_drops_unicode_white_space_at_both_ends() {
    let v = chars_of("\u{a0} \tmid dle\r\n\u{2003}");
    let (lo, hi) = trim_bounds(&v, 0, v.len());
    let kept: String = v[lo..hi].iter().collect();
    assert_eq!(kept, "mid dle");
    let blank = chars_of(" \t ");
    let (lo, hi) = trim_bounds(&blank, 0, blank.len());
    assert_eq!(lo, hi);
}

#[test]
fn a_range_compares_against_a_literal_exactly() {
    let v = chars_of("select_slot|x");
    assert!(range_eq(&v, 0, 11, "select_slot"));
    assert!(!range_eq(&v, 0, 10, "select_slot"));
    assert!(!range_eq(&v, 0, 11, "select_slog"));
    assert!(range_eq(&v, 3, 3, ""));
}

#[test]
fn find_reports_the_first_match_or_the_end() {
    let v = chars_of("a=b=c");
    assert_eq!(find_in(&v, 0, 5, '='), 1);
    assert_eq!(find_in(&v, 2, 5, '='), 3);
    assert_eq!(find_in(&v, 4, 5, '='), 5);
}

#[test]
fn a_usize_parses_as_rust_parses_it() {
    let v = chars_of("+42|007|4x||18446744073709551616");
    assert_eq!(parse_usize_in(&v, 0, 3), Some(42));
    assert_eq!(parse_usize_in(&v, 4, 7), Some(7));
    assert_eq!(parse_usize_in(&v, 8, 10), None);
    assert_eq!(parse_usize_in(&v, 11, 11), None);
    assert_eq!(parse_usize_in(&v, 0, 1), None, "a sign alone is not a number");
    assert_eq!(parse_usize_in(&v, 12, v.len()), None, "past usize::MAX");
}

#[test]
fn splitting_keeps_empty_pieces() {
    let v = chars_of("|a||b|");
    let bounds = split_bounds(&v, 0, v.len(), '|');
    assert_eq!(bounds, vec![(0, 0), (1, 2), (3, 3), (4, 5), (6, 6)]);
}

#[test]
fn string_equality_is_by_characters() {
    assert!(str_eq("abc", "abc"));
    assert!(!str_eq("abc", "abd"));
    assert!(!str_eq("abc", "ab"));
    assert!(str_eq("", ""));
}

use vt_client::text::replace_str;

#[test]
fn replacing_scans_left_to_right_without_overlap() {
    assert_eq!(replace_str("aaaa", "aa", "b"), "bb");
    assert_eq!(replace_str("aaa", "aa", "b"), "ba");
    assert_eq!(replace_str("abcabc", "bc", "X"), "aXaX");
    assert_eq!(replace_str("abc", "abcd", "X"), "abc");
    assert_eq!(replace_str("", "a", "X"), "");
    assert_eq!(replace_str("a.b", ".", ".."), "a..b", "what is put in is not rescanned");
    assert_eq!(replace_str("héllo wörld", "ö", "o"), "héllo world");
}

#[test]
fn an_empty_pattern_matches_around_every_character() {
    assert_eq!(replace_str("ab", "", "x"), "xaxbx");
    assert_eq!(replace_str("", "", "x"), "x");
    assert_eq!("ab".replace("", "x"), replace_str("ab", "", "x"));
}
