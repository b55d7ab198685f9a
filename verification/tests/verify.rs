use std::cmp::Ordering;

use mod_updater::mc_version::compare_mc_versions;
use mod_updater::tree::DataNode;
use mod_updater::verify::{
    check_jar_metadata, maven_interval_allows, maven_interval_diverges, minecraft_dep_allows,
    minecraft_dep_diverges, scan_toml_tables_for_minecraft, try_check_jar_metadata,
    try_verify_fabric_json, try_verify_mods_toml_minecraft, try_verify_quilt_json,
    verify_fabric_doc, verify_fabric_json, verify_mods_toml_minecraft, verify_quilt_doc,
    verify_quilt_json,
};

fn s(x: &str) -> DataNode {
    DataNode::Str(x.to_string())
}

fn obj(entries: Vec<(&str, DataNode)>) -> DataNode {
    DataNode::Obj(entries.into_iter().map(|(k, v)| (k.to_string(), v)).collect())
}

#[test]
fn mc_compare() {
    assert_eq!(
        compare_mc_versions("1.21.1", "1.21.0"),
        Some(Ordering::Greater)
    );
    assert_eq!(
        compare_mc_versions("1.21.1", "1.21.1"),
        Some(Ordering::Equal)
    );
    assert_eq!(
        compare_mc_versions("1.20.4", "1.21.1"),
        Some(Ordering::Less)
    );
}

#[test]
fn fabric_dep_tilde() {
    assert!(minecraft_dep_allows("~1.21.1", "1.21.1"));
    assert!(minecraft_dep_allows("~1.21.1", "1.21.5"));
    assert!(!minecraft_dep_allows("~1.21.1", "1.22.0"));
}

#[test]
fn fabric_dep_ge() {
    assert!(minecraft_dep_allows(">=1.21", "1.21.1"));
    assert!(!minecraft_dep_allows(">=1.22", "1.21.1"));
}

#[test]
fn maven_interval() {
    assert!(maven_interval_allows("[1.21,1.22)", "1.21.1"));
    assert!(!maven_interval_allows("[1.21,1.22)", "1.22.0"));
}

#[test]
fn bare_versions_are_not_prefix_matched() {
    assert!(!minecraft_dep_allows("1.21.1", "1.21.11"));
    assert!(!minecraft_dep_allows("1.21.11", "1.21.1"));
    assert!(minecraft_dep_allows("[1.21.11,1.21.12)", "1.21.11"));
    assert!(!minecraft_dep_allows("[1.21.1,1.21.2)", "1.21.11"));
}

#[test]
fn wildcard_and_empty_admit_anything() {
    assert!(minecraft_dep_allows("*", "1.20.1"));
    assert!(minecraft_dep_allows("  ", "whatever"));
    assert!(minecraft_dep_allows("-", "1.0"));
}

#[test]
fn comparison_operators() {
    assert!(minecraft_dep_allows(">1.21", "1.21.1"));
    assert!(!minecraft_dep_allows(">1.21.1", "1.21.1"));
    assert!(minecraft_dep_allows("<=1.21.1", "1.21.1"));
    assert!(!minecraft_dep_allows("<1.21.1", "1.21.1"));
    assert!(minecraft_dep_allows("<1.21.1", "1.21"));
    assert!(minecraft_dep_allows(">=1.21-", "1.21"));
    assert!(!minecraft_dep_allows(">=abc", "1.21"));
}

#[test]
fn tilde_on_a_single_component_compares_only() {
    assert!(minecraft_dep_allows("~1", "2.0"));
    assert!(!minecraft_dep_allows("~2", "1.9"));
}

#[test]
fn maven_bounds_inclusive_and_exclusive() {
    assert!(maven_interval_allows("[1.21,1.22]", "1.22"));
    assert!(!maven_interval_allows("(1.21,1.22)", "1.21"));
    assert!(maven_interval_allows("[1.21,)", "1.30"));
    // An empty lower bound is dropped, so the upper bound is read as the lower one.
    assert!(!maven_interval_allows("[,1.22)", "1.0"));
    assert!(maven_interval_allows("[,1.22)", "1.23"));
    assert!(maven_interval_allows("[]", "1.0"));
    assert!(!maven_interval_allows("[x,1.22)", "1.21"));
    assert!(maven_interval_allows("1.21.1", "1.21.1"));
}

#[test]
fn divergence_is_detected() {
    assert!(minecraft_dep_diverges("1.20,[1.21", "1.19"));
    assert!(!minecraft_dep_diverges("[1.20,1.21)", "1.19"));
    assert!(!minecraft_dep_diverges("1.20", "1.19"));
    assert!(maven_interval_diverges("1.20,[1.21", "1.19"));
    assert!(!maven_interval_diverges("[1.20,1.21)", "1.19"));
}

#[test]
fn fabric_doc_checks_minecraft_dependency() {
    let ok = obj(vec![("depends", obj(vec![("minecraft", s(">=1.21"))]))]);
    assert_eq!(verify_fabric_doc(&ok, "1.21.1"), Ok(()));
    let bad = obj(vec![("depends", obj(vec![("minecraft", s("1.20.1"))]))]);
    assert_eq!(
        verify_fabric_doc(&bad, "1.21.1"),
        Err("fabric.mod.json minecraft dependency does not allow target 1.21.1".to_string())
    );
    let list = obj(vec![(
        "depends",
        obj(vec![("minecraft", DataNode::Arr(vec![s("1.20.1"), s("1.21.1")]))]),
    )]);
    assert_eq!(verify_fabric_doc(&list, "1.21.1"), Ok(()));
    let empty = obj(vec![("depends", obj(vec![("minecraft", DataNode::Arr(vec![]))]))]);
    assert_eq!(verify_fabric_doc(&empty, "1.21.1"), Ok(()));
    assert_eq!(verify_fabric_doc(&obj(vec![]), "1.21.1"), Ok(()));
}

#[test]
fn quilt_doc_object_and_array_forms() {
    let arr = obj(vec![(
        "quilt_loader",
        obj(vec![(
            "depends",
            DataNode::Arr(vec![
                obj(vec![("id", s("fabric-api"))]),
                obj(vec![("id", s("minecraft")), ("versions", s("1.20.4"))]),
            ]),
        )]),
    )]);
    assert_eq!(
        verify_quilt_doc(&arr, "1.21.1"),
        Err("quilt.mod.json minecraft dependency does not allow target 1.21.1".to_string())
    );
    let top = obj(vec![("depends", obj(vec![("minecraft", s("~1.21"))]))]);
    assert_eq!(verify_quilt_doc(&top, "1.21.4"), Ok(()));
}

#[test]
fn toml_scan_reports_debug_quoted_range() {
    let doc = obj(vec![(
        "dependencies",
        obj(vec![(
            "mymod",
            DataNode::Arr(vec![obj(vec![
                ("modId", s("Minecraft")),
                ("versionRange", s("[1.20,1.21)")),
            ])]),
        )]),
    )]);
    assert_eq!(
        scan_toml_tables_for_minecraft(&doc, "1.21.1"),
        Err("mods.toml minecraft versionRange \"[1.20,1.21)\" does not allow 1.21.1".to_string())
    );
    assert_eq!(scan_toml_tables_for_minecraft(&doc, "1.20.6"), Ok(()));
}

#[test]
fn jar_check_uses_the_first_present_file() {
    let bad_fabric = Some(r#"{"depends":{"minecraft":"1.19"}}"#.to_string());
    let good_toml = Some("modLoader = \"javafml\"\n".to_string());
    let r = check_jar_metadata(&bad_fabric, &None, &good_toml, &None, "1.21.1");
    assert_eq!(
        r,
        Err("fabric.mod.json minecraft dependency does not allow target 1.21.1".to_string())
    );
    assert_eq!(check_jar_metadata(&None, &None, &None, &None, "1.21.1"), Ok(()));
    let toml = Some("[[dependencies.x]]\nmodId = \"minecraft\"\nversionRange = \"[1.20,1.21)\"\n".to_string());
    assert_eq!(
        check_jar_metadata(&None, &None, &None, &toml, "1.21.1"),
        Err("mods.toml minecraft versionRange \"[1.20,1.21)\" does not allow 1.21.1".to_string())
    );
}

#[test]
fn unparsable_metadata_cannot_be_verified_and_passes() {
    let broken = Some("{ not json".to_string());
    let bad_toml = Some("[[dependencies.x]]\nmodId = \"minecraft\"\nversionRange = \"[1.20,1.21)\"\n".to_string());
    assert_eq!(check_jar_metadata(&broken, &None, &bad_toml, &None, "1.21.1"), Ok(()));
    assert_eq!(check_jar_metadata(&None, &Some("[".to_string()), &None, &None, "1.21.1"), Ok(()));
    assert_eq!(check_jar_metadata(&None, &None, &Some("= =".to_string()), &None, "1.21.1"), Ok(()));
}

#[test]
fn metadata_texts_are_checked() {
    assert_eq!(verify_fabric_json(r#"{"depends":{"minecraft":">=1.21"}}"#, "1.21.1"), Ok(()));
    assert!(verify_fabric_json("{", "1.21.1").is_err());
    assert_eq!(
        verify_quilt_json(
            r#"{"quilt_loader":{"depends":[{"id":"minecraft","versions":"1.20.4"}]}}"#,
            "1.21.1"
        ),
        Err("quilt.mod.json minecraft dependency does not allow target 1.21.1".to_string())
    );
    assert!(verify_mods_toml_minecraft("x = ", "1.21.1").is_err());
    assert_eq!(verify_mods_toml_minecraft("[[mods]]\nmodId = \"a\"\n", "1.21.1"), Ok(()));
    assert_eq!(try_verify_fabric_json(r#"{"depends":{"minecraft":"1.20,[1.21"}}"#, "1.19"), None);
    assert_eq!(try_verify_quilt_json("{}", "1.19"), Some(Ok(())));
    assert_eq!(
        try_verify_mods_toml_minecraft("[[d]]\nmodId = \"minecraft\"\nversionRange = \"1.20,[1.21\"\n", "1.19"),
        None
    );
    let looping = Some(r#"{"depends":{"minecraft":"1.20,[1.21"}}"#.to_string());
    assert_eq!(try_check_jar_metadata(&looping, &None, &None, &None, "1.19"), None);
    assert_eq!(try_check_jar_metadata(&None, &None, &None, &None, "1.19"), Some(Ok(())));
}

#[test]
fn operators_compare_with_zero_padding() {
    assert!(minecraft_dep_allows(">=1.21", "1.21.0"));
    assert!(!minecraft_dep_allows(">1.21", "1.21.0"));
    assert!(minecraft_dep_allows("<=1.21.0", "1.21"));
    assert!(!minecraft_dep_allows("<1.21.0", "1.21"));
    assert!(minecraft_dep_allows("<1.21.0", "1.20.6"));
    assert!(minecraft_dep_allows(">= 1.21 ", "1.21.0"));
    assert!(!minecraft_dep_allows("< 1.21", "1.21.0"));
}

#[test]
fn every_bracket_pair_and_open_upper_bound() {
    assert!(maven_interval_allows("(1.21,1.22]", "1.22"));
    assert!(!maven_interval_allows("(1.21,1.22]", "1.21"));
    assert!(maven_interval_allows("[1.21,1.22]", "1.21"));
    assert!(!maven_interval_allows("[1.21,1.22)", "1.22"));
    assert!(!maven_interval_allows("(1.21,)", "1.21"));
    assert!(maven_interval_allows("(1.21,)", "1.21.1"));
    assert!(maven_interval_allows("[1.21,]", "1.21"));
    assert!(!maven_interval_allows("[1.21,]", "1.20.6"));
    assert!(maven_interval_allows("[ 1.21 , 1.22 )", "1.21.5"));
    assert!(!maven_interval_allows("[ 1.21 , 1.22 )", "1.22"));
}
