use copydog::text::{
    rfind_sub, str_contains, str_ends_with, to_ascii_lowercase, trim_end_matches,
    trim_start_matches,
};

#[test]
fn lowercase_maps_ascii_capitals_only() {
    assert_eq!(to_ascii_lowercase("AbC_09"), "abc_09");
    assert_eq!(to_ascii_lowercase(""), "");
}

#[test]
fn ends_with_checks_the_suffix() {
    assert!(str_ends_with("wall_albedo", "albedo"));
    assert!(!str_ends_with("wall_albedo", "basecolor"));
    assert!(str_ends_with("x", ""));
}

#[test]
fn contains_finds_inner_occurrences() {
    assert!(str_contains("t_rock_bake_normal", "bake"));
    assert!(!str_contains("t_rock", "bake"));
}

#[test]
fn rfind_sub_names_the_last_occurrence() {
    assert_eq!(rfind_sub("abcabc", "abc"), Some(3));
    assert_eq!(rfind_sub("abcabc", "zz"), None);
}

#[test]
fn trims_remove_every_repetition() {
    assert_eq!(trim_start_matches("SM_SM_Chair", "SM_"), "Chair");
    assert_eq!(trim_end_matches("name__", "_"), "name");
    assert_eq!(trim_end_matches("Name_bake", "bake"), "Name_");
}
