use budbuddy::text::{contains_ci, eq_ci, starts_with_ci, starts_with_exact, str_eq};

#[test]
fn equality_folds_ascii_letters_only() {
    assert!(eq_ci("Sweet", "sWEET"));
    assert!(!eq_ci("Sweet", "Sweet "));
    assert!(eq_ci("Blüberry", "blüberry"), "ASCII letters fold around the non-ASCII one");
    assert!(!eq_ci("Blüberry", "blÜberry"), "non-ASCII characters are matched exactly");
}

#[test]
fn containment_is_case_insensitive_substring() {
    assert!(contains_ci("OG Kush", "kush"));
    assert!(contains_ci("OG Kush", ""));
    assert!(contains_ci("OG Kush", "og kush"));
    assert!(!contains_ci("OG Kush", "kushy"));
    assert!(!contains_ci("", "a"));
}

#[test]
fn prefix_checks_compare_from_the_start() {
    assert!(starts_with_ci("Relaxed", "rEl"));
    assert!(!starts_with_ci("Relaxed", "elax"));
    assert!(starts_with_exact("puff take", "puff"));
    assert!(!starts_with_exact("puff take", "Puff"));
}

#[test]
fn exact_equality_is_case_sensitive() {
    assert!(str_eq("hybrid", "hybrid"));
    assert!(!str_eq("hybrid", "Hybrid"));
}
