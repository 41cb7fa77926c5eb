use energy_rate::text::{
    chars_of, is_whitespace, line_end, skip_spaces, skip_spaces_back, starts_with,
};

#[test]
fn white_space_is_what_the_standard_library_calls_so() {
    for n in 0..=0x10ffffu32 {
        if let Some(c) = char::from_u32(n) {
            assert_eq!(is_whitespace(c), c.is_whitespace(), "U+{:04X}", n);
        }
    }
}

#[test]
fn chars_of_gives_the_characters_in_order() {
    assert_eq!(chars_of(""), Vec::<char>::new());
    assert_eq!(chars_of("a\u{e9}\u{1f50b}\n"), vec!['a', '\u{e9}', '\u{1f50b}', '\n']);
}

#[test]
fn skip_spaces_stops_at_the_first_other_character() {
    let chars = chars_of(" \t\u{a0}ab c ");
    assert_eq!(skip_spaces(&chars, 0, chars.len()), 3);
    assert_eq!(skip_spaces(&chars, 3, chars.len()), 3);
    assert_eq!(skip_spaces(&chars, 5, chars.len()), 6);
    assert_eq!(skip_spaces(&chars, 0, 2), 2);
    assert_eq!(skip_spaces(&chars, 7, 8), 8);
    assert_eq!(skip_spaces(&chars, 8, 8), 8);
}

#[test]
fn skip_spaces_back_stops_after_the_last_other_character() {
    let chars = chars_of(" ab c \u{2003}\n");
    assert_eq!(skip_spaces_back(&chars, 0, chars.len()), 5);
    assert_eq!(skip_spaces_back(&chars, 0, 4), 3);
    assert_eq!(skip_spaces_back(&chars, 5, chars.len()), 5);
    assert_eq!(skip_spaces_back(&chars, 0, 1), 0);
    assert_eq!(skip_spaces_back(&chars, 0, 0), 0);
}

#[test]
fn line_end_is_the_next_line_feed_or_the_end() {
    let chars = chars_of("ab\n\ncd");
    assert_eq!(line_end(&chars, 0), 2);
    assert_eq!(line_end(&chars, 2), 2);
    assert_eq!(line_end(&chars, 3), 3);
    assert_eq!(line_end(&chars, 4), 6);
    assert_eq!(line_end(&chars, 6), 6);
}

#[test]
fn starts_with_compares_within_the_part() {
    let chars = chars_of("xxenergy-rate: 5");
    let label = chars_of("energy-rate:");
    assert!(starts_with(&chars, 2, chars.len(), &label));
    assert!(starts_with(&chars, 2, 14, &label));
    assert!(!starts_with(&chars, 2, 13, &label));
    assert!(!starts_with(&chars, 0, chars.len(), &label));
    assert!(!starts_with(&chars, 3, chars.len(), &label));
    assert!(starts_with(&chars, 5, 5, &Vec::new()));
}
