use std::cmp::Ordering;

use mod_updater::mc_version::{
    compare_mc_versions, filename_declares_mc, filename_declares_mc_panics, mc_version_components,
    normalize_mc, same_mc_version,
};

#[test]
fn parses_segments_strictly() {
    assert_eq!(mc_version_components("1.21.11"), Some(vec![1, 21, 11]));
    assert_eq!(mc_version_components("1.21"), Some(vec![1, 21]));
    assert_eq!(mc_version_components("1.21.x"), None);
    assert_eq!(mc_version_components("1..21"), None);
}

#[test]
fn distinguishes_1211_from_12111() {
    assert!(same_mc_version("1.21.11", "1.21.11"));
    assert!(!same_mc_version("1.21.1", "1.21.11"));
    assert_eq!(
        compare_mc_versions("1.21.11", "1.21.1"),
        Some(Ordering::Greater)
    );
}

#[test]
fn filename_match_is_token_bounded() {
    assert!(filename_declares_mc(
        "sodium-fabric-0.6.0+mc1.21.11.jar",
        "1.21.11"
    ));
    assert!(filename_declares_mc(
        "some-mod-1.21.11-fabric.jar",
        "1.21.11"
    ));
    assert!(!filename_declares_mc(
        "sodium-fabric-0.6.0+mc1.21.11.jar",
        "1.21.1"
    ));
}

#[test]
fn normalize_trims_and_lowercases() {
    assert_eq!(normalize_mc("  1.21-Pre1 "), "1.21-pre1");
}

#[test]
fn components_reject_overflow_and_empty() {
    assert_eq!(mc_version_components(""), None);
    assert_eq!(mc_version_components(".1"), None);
    assert_eq!(mc_version_components("1."), None);
    assert_eq!(mc_version_components("4294967296"), None);
    assert_eq!(mc_version_components("4294967295"), Some(vec![4294967295]));
    assert_eq!(mc_version_components(" 1.20.4 "), Some(vec![1, 20, 4]));
}

#[test]
fn compare_pads_missing_components() {
    assert_eq!(compare_mc_versions("1.21", "1.21.0"), Some(Ordering::Equal));
    assert!(!same_mc_version("1.21", "1.21.0"));
    assert_eq!(compare_mc_versions("1.21", "snapshot"), None);
    assert_eq!(compare_mc_versions("1.20.4", "1.21"), Some(Ordering::Less));
    assert_eq!(compare_mc_versions("1.21", "1.20.4"), Some(Ordering::Greater));
}

#[test]
fn same_version_falls_back_to_text() {
    assert!(same_mc_version("24w14a", " 24W14A "));
    assert!(!same_mc_version("24w14a", "24w14b"));
}

#[test]
fn filename_match_ignores_case_and_suffix() {
    assert!(filename_declares_mc("Mod-MC1.21.1.jar", "1.21.1"));
    // Only a lowercase `.jar` is dropped; the `.` left before `JAR` is no delimiter.
    assert!(!filename_declares_mc("Mod-MC1.21.1.JAR", "1.21.1"));
    assert!(filename_declares_mc("mod_1.21.1", "1.21.1"));
    assert!(!filename_declares_mc("mod-1.21.1x.jar", "1.21.1"));
    assert!(!filename_declares_mc("mod.jar", ""));
}

#[test]
fn panic_check_matches_non_ascii_needles() {
    assert!(!filename_declares_mc_panics("mod-1.21.1.jar", "1.21.1"));
    assert!(filename_declares_mc_panics("xé", "é"));
    assert!(!filename_declares_mc_panics("x-é", "é"));
    assert!(filename_declares_mc("x-é", "é"));
}

#[test]
fn normalizing_twice_changes_nothing() {
    let once = normalize_mc("  1.21-PRE1\t");
    assert_eq!(normalize_mc(&once), once);
}

#[test]
fn version_order_is_transitive_and_reversible() {
    assert_eq!(compare_mc_versions("1.19.4", "1.20"), Some(Ordering::Less));
    assert_eq!(compare_mc_versions("1.20", "1.20.1"), Some(Ordering::Less));
    assert_eq!(compare_mc_versions("1.19.4", "1.20.1"), Some(Ordering::Less));
    assert_eq!(compare_mc_versions("1.20.1", "1.19.4"), Some(Ordering::Greater));
    assert!(same_mc_version("1.20.1", "1.20.1"));
}

#[test]
fn one_more_zero_compares_equal_but_is_not_the_same() {
    assert_eq!(compare_mc_versions("1.20", "1.20.0"), Some(Ordering::Equal));
    assert!(!same_mc_version("1.20", "1.20.0"));
    assert_eq!(compare_mc_versions("1.20.0", "1.20"), Some(Ordering::Equal));
    assert!(!same_mc_version("1.20.0", "1.20"));
}
