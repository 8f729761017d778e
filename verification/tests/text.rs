use blog_pipeline::text::{
    chars_of, decimal, find_char, lex_before, matches_at, replace_every, trim_range,
};

fn chars(s: &str) -> Vec<char> {
    s.chars().collect()
}

#[test]
fn characters_are_taken_one_by_one() {
    assert_eq!(chars_of(""), Vec::<char>::new());
    assert_eq!(chars_of("aé字"), vec!['a', 'é', '字']);
}

#[test]
fn trimming_drops_blanks_at_both_ends_only() {
    let v = chars(" \t a b \r ");
    assert_eq!(trim_range(&v, 0, v.len()), (3, 6));
    assert_eq!(trim_range(&v, 4, v.len()), (5, 6));
    let blank = chars(" \t\r");
    assert_eq!(trim_range(&blank, 0, 3), (3, 3));
    assert_eq!(trim_range(&blank, 1, 1), (1, 1));
    let newline = chars("\na\n");
    assert_eq!(trim_range(&newline, 0, 3), (0, 3));
}

#[test]
fn a_character_is_found_at_its_first_place_in_the_range() {
    let v = chars("a:b:c");
    assert_eq!(find_char(&v, ':', 0, 5), 1);
    assert_eq!(find_char(&v, ':', 2, 5), 3);
    assert_eq!(find_char(&v, ':', 4, 5), 5);
    assert_eq!(find_char(&v, ':', 0, 1), 1);
    assert_eq!(find_char(&v, 'x', 0, 5), 5);
    assert_eq!(find_char(&v, 'a', 3, 3), 3);
}

#[test]
fn a_pattern_matches_where_it_stands() {
    let t = chars("abcabc");
    assert!(matches_at(&t, 0, &chars("abc")));
    assert!(matches_at(&t, 3, &chars("abc")));
    assert!(!matches_at(&t, 1, &chars("abc")));
    assert!(!matches_at(&t, 4, &chars("abc")));
    assert!(matches_at(&t, 6, &chars("")));
    assert!(!matches_at(&t, 6, &chars("a")));
}

#[test]
fn every_occurrence_is_replaced_from_the_left() {
    assert_eq!(replace_every("a<b><b>c", "<b>", "[x]"), "a[x][x]c");
    assert_eq!(replace_every("aaa", "aa", "b"), "ba");
    assert_eq!(replace_every("abc", "abc", ""), "");
    assert_eq!(replace_every("abc", "x", "y"), "abc");
    assert_eq!(replace_every("abc", "", "y"), "abc");
    assert_eq!(replace_every("", "a", "y"), "");
    assert_eq!(replace_every("é-é", "é", "ee"), "ee-ee");
    assert_eq!(replace_every("ab", "b", "bb"), "abb");
}

#[test]
fn a_prefix_comes_before_what_it_prefixes() {
    assert!(lex_before(&chars(""), &chars("a")));
    assert!(lex_before(&chars("ab"), &chars("abc")));
    assert!(!lex_before(&chars("abc"), &chars("ab")));
    assert!(!lex_before(&chars("abc"), &chars("abc")));
    assert!(!lex_before(&chars(""), &chars("")));
}

#[test]
fn the_first_difference_decides() {
    assert!(lex_before(&chars("abd"), &chars("ac")));
    assert!(lex_before(&chars("Z"), &chars("a")));
    assert!(!lex_before(&chars("b"), &chars("abc")));
    assert!(lex_before(&chars("z"), &chars("é")));
}

#[test]
fn numbers_are_written_in_decimal() {
    assert_eq!(decimal(0), "0");
    assert_eq!(decimal(7), "7");
    assert_eq!(decimal(10), "10");
    assert_eq!(decimal(1234567890), "1234567890");
    assert_eq!(decimal(usize::MAX), usize::MAX.to_string());
}
