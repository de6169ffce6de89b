use emscripten_env::text::{drop_first_char, same_text, starts_with};

#[test]
fn prefixes() {
    assert!(starts_with("nullFunc_ii", "nullFunc_"));
    assert!(starts_with("abc", ""));
    assert!(starts_with("abc", "abc"));
    assert!(!starts_with("ab", "abc"));
    assert!(!starts_with("abd", "abc"));
    assert!(starts_with("ü_x", "ü"));
}

#[test]
fn equal_texts() {
    assert!(same_text("env", "env"));
    assert!(!same_text("env", "en"));
    assert!(!same_text("env", "enV"));
    assert!(same_text("", ""));
}

#[test]
fn dropping_the_first_character() {
    assert_eq!(drop_first_char("_malloc"), "malloc");
    assert_eq!(drop_first_char("_"), "");
    assert_eq!(drop_first_char("éa"), "a");
}
