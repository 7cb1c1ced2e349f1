use bitfont::wrap::wrap_lines;

#[test]
fn wrap_forces_overlong_first_word() {
    assert_eq!(wrap_lines("PIZZA DAY", 4), vec!["PIZZA", "DAY"]);
}

#[test]
fn wrap_groups_words_within_limit() {
    assert_eq!(wrap_lines("A B C D", 3), vec!["A B", "C D"]);
}

#[test]
fn wrap_zero_limit_is_single_line() {
    assert_eq!(wrap_lines("PIZZA DAY", 0), vec!["PIZZA DAY"]);
}

#[test]
fn wrap_empty_text_is_one_empty_line() {
    assert_eq!(wrap_lines("", 7), vec![""]);
}

#[test]
fn wrap_never_splits_a_single_word() {
    assert_eq!(wrap_lines("ABCDEFG", 3), vec!["ABCDEFG"]);
}

#[test]
fn wrap_every_tail_word_on_its_own_line() {
    assert_eq!(wrap_lines("AA BB CC", 2), vec!["AA", "BB", "CC"]);
}

#[test]
fn wrap_trailing_space_gives_trailing_empty_line() {
    assert_eq!(wrap_lines("AB ", 2), vec!["AB", ""]);
}

#[test]
fn wrap_newline_is_an_ordinary_character() {
    // A newline does not force a break; it is wrapped like any non-space.
    assert_eq!(wrap_lines("AB\nCD EF", 5), vec!["AB\nCD", "EF"]);
}

#[test]
fn wrap_join_restores_text() {
    let cases = [
        ("THE QUICK BROWN FOX JUMPS OVER THE LAZY DOG", 7),
        ("A  DOUBLE  SPACED  TEXT", 5),
        ("PIZZA DAY", 4),
        ("AB ", 2),
        ("", 3),
        ("ONE", 1),
    ];
    for (text, limit) in cases {
        let lines = wrap_lines(text, limit);
        assert_eq!(lines.join(" "), text);
    }
}
