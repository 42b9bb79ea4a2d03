use ntf::{replace_first_char, uncapitalise};

#[test]
fn uncapitalise_sets_the_first_char_to_lowercase() {
    assert_eq!(uncapitalise("Hello"), "hello");
}

#[test]
fn uncapitalise_returns_an_empty_string_on_empty_string() {
    assert_eq!(uncapitalise(""), "");
}

#[test]
fn uncapitalise_keeps_the_rest_unchanged() {
    assert_eq!(uncapitalise("ABC Def"), "aBC Def");
}

#[test]
fn uncapitalise_leaves_a_lowercase_start_alone() {
    assert_eq!(uncapitalise("hello"), "hello");
}

#[test]
fn uncapitalise_handles_non_ascii_first_char() {
    assert_eq!(uncapitalise("Élan"), "élan");
    assert_eq!(uncapitalise("İx"), "i\u{307}x");
}

#[test]
fn replace_first_char_swaps_the_first_character() {
    assert_eq!(replace_first_char("Hello", "j"), "jello");
    assert_eq!(replace_first_char("", "j"), "");
    assert_eq!(replace_first_char("éa", "xy"), "xya");
}
