use township::text::same_text;

#[test]
fn same_text_holds_of_equal_texts() {
    assert!(same_text("", ""));
    assert!(same_text("OK", "OK"));
    assert!(same_text("administrative_area_level_3", "administrative_area_level_3"));
    assert!(same_text("Z\u{fc}rich", "Z\u{fc}rich"));
}

#[test]
fn same_text_fails_of_a_prefix() {
    assert!(!same_text("Springfield", "Springfieldville"));
    assert!(!same_text("Springfieldville", "Springfield"));
    assert!(!same_text("", "a"));
    assert!(!same_text("a", ""));
}

#[test]
fn same_text_fails_of_one_different_character() {
    assert!(!same_text("OK", "Ok"));
    assert!(!same_text("locality", "localitz"));
    assert!(!same_text("xocality", "locality"));
    assert!(!same_text("Zurich", "Z\u{fc}rich"));
}
