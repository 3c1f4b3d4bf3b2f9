use nixdle::text::{
    char_is_space, chars_of, find_in, same_text, split_ranges, stands_at, string_of, to_lower,
    trim_range,
};

fn pieces(s: &str, sep: &str) -> Vec<String> {
    let v = chars_of(s);
    split_ranges(&v, 0, v.len(), &chars_of(sep))
        .into_iter()
        .map(|(a, b)| string_of(&v, a, b))
        .collect()
}

#[test]
fn white_space_is_what_unicode_marks_as_such() {
    for code in 0..=0x10FFFFu32 {
        if let Some(c) = char::from_u32(code) {
            assert_eq!(char_is_space(c), c.is_whitespace(), "U+{:04X}", code);
        }
    }
}

#[test]
fn only_ascii_capitals_are_lowered() {
    for code in 0..=0x10FFFFu32 {
        if let Some(c) = char::from_u32(code) {
            assert_eq!(to_lower(c), c.to_ascii_lowercase(), "U+{:04X}", code);
        }
    }
}

#[test]
fn characters_and_strings_convert_both_ways() {
    let v = chars_of("a\u{e9}\u{1f36a}b");
    assert_eq!(v, vec!['a', '\u{e9}', '\u{1f36a}', 'b']);
    assert_eq!(string_of(&v, 1, 3), "\u{e9}\u{1f36a}");
    assert_eq!(string_of(&v, 2, 2), "");
    assert!(same_text("ab", "ab"));
    assert!(!same_text("ab", "aB"));
}

#[test]
fn trims_within_a_range() {
    let v = chars_of("x  a b \n y");
    assert_eq!(trim_range(&v, 1, 8), (3, 6));
    assert_eq!(trim_range(&v, 1, 3), (3, 3));
    assert_eq!(trim_range(&v, 0, v.len()), (0, v.len()));
}

#[test]
fn finds_the_first_place_of_a_pattern() {
    let v = chars_of("a->b->c");
    let arrow = chars_of("->");
    assert_eq!(find_in(&v, 0, v.len(), &arrow), Some(1));
    assert_eq!(find_in(&v, 2, v.len(), &arrow), Some(4));
    assert_eq!(find_in(&v, 5, v.len(), &arrow), None);
    assert_eq!(find_in(&v, 0, 2, &arrow), None);
    assert_eq!(find_in(&v, 3, 3, &chars_of("")), Some(3));
    assert!(stands_at(&v, 4, v.len(), &arrow));
    assert!(!stands_at(&v, 4, 5, &arrow));
    assert!(!stands_at(&v, 5, v.len(), &arrow));
}

#[test]
fn splits_as_the_standard_library_does() {
    for (s, sep) in [
        ("a->b->c", "->"),
        ("->a->", "->"),
        ("a->->b", "->"),
        ("", "->"),
        ("aaa", "aa"),
        ("lib.strings.x", "."),
        ("..", "."),
        ("no separator", "::"),
    ] {
        let expected: Vec<String> = s.split(sep).map(|p| p.to_string()).collect();
        assert_eq!(pieces(s, sep), expected, "{:?} at {:?}", s, sep);
    }
}
