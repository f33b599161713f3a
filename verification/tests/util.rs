use termchat::util::{chars_of, split_each, string_of, string_of_range, stringify_sendall_errors};

#[test]
fn short_input_stays_on_one_row() {
    assert_eq!(split_each("hello".to_string(), 10), vec!["hello"]);
    assert_eq!(split_each("hello".to_string(), 5), vec!["hello"]);
}

#[test]
fn empty_input_has_no_row() {
    assert!(split_each(String::new(), 3).is_empty());
}

#[test]
fn rows_are_filled_up_to_the_width() {
    assert_eq!(split_each("hello world".to_string(), 4), vec!["hell", "o wo", "rld"]);
    assert_eq!(split_each("abcdef".to_string(), 3), vec!["abc", "def"]);
    assert_eq!(split_each("abc".to_string(), 1), vec!["a", "b", "c"]);
}

#[test]
fn a_wide_character_moves_to_the_next_row() {
    assert_eq!(split_each("a世界".to_string(), 3), vec!["a世", "界"]);
    assert_eq!(split_each("ab世".to_string(), 3), vec!["ab", "世"]);
}

#[test]
fn a_character_wider_than_the_panel_leaves_an_empty_row() {
    assert_eq!(split_each("世".to_string(), 1), vec!["", "世"]);
}

#[test]
fn characters_without_width_stay_on_the_row() {
    assert_eq!(split_each("ab\u{7}".to_string(), 3), vec!["ab\u{7}"]);
    assert_eq!(split_each("abc\u{7}".to_string(), 3), vec!["abc", "\u{7}"]);
}

#[test]
fn splitting_keeps_the_text() {
    let input = "The quick brown 狐 jumps over the lazy 犬";
    for width in 1..12 {
        assert_eq!(split_each(input.to_string(), width).concat(), input);
    }
}

#[test]
fn no_failure_gives_an_empty_report() {
    assert_eq!(stringify_sendall_errors(&vec![]), "");
}

#[test]
fn one_failure_gives_one_line() {
    let errors = vec![("1.2.3.4:5".to_string(), "refused".to_string())];
    assert_eq!(stringify_sendall_errors(&errors), "Failed to connect to 1.2.3.4:5, error: refused");
}

#[test]
fn failures_are_listed_one_per_line() {
    let errors = vec![
        ("a".to_string(), "x".to_string()),
        ("b".to_string(), "y".to_string()),
        ("c".to_string(), "z".to_string()),
    ];
    assert_eq!(
        stringify_sendall_errors(&errors),
        "Failed to connect to a, error: x\nFailed to connect to b, error: y\nFailed to connect to c, error: z"
    );
}

#[test]
fn texts_and_characters_convert_both_ways() {
    assert_eq!(chars_of("añ世"), vec!['a', 'ñ', '世']);
    assert_eq!(string_of(&vec!['a', 'ñ', '世']), "añ世");
    assert_eq!(string_of(&vec![]), "");
    assert_eq!(string_of_range(&vec!['a', 'b', 'c', 'd'], 1, 3), "bc");
    assert_eq!(string_of_range(&vec!['a', 'b'], 2, 2), "");
}

#[test]
fn rows_of_narrow_text_fit_the_panel() {
    let input = "The quick brown fox jumps over the lazy dog";
    for width in 1..12 {
        let rows = split_each(input.to_string(), width);
        assert!(rows.iter().all(|row| row.chars().count() <= width));
        // All rows but the last are full.
        assert!(rows[..rows.len() - 1].iter().all(|row| row.chars().count() == width));
    }
}
