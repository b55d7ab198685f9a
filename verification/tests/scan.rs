use std::path::PathBuf;

use mod_updater::hashing::{sha1_hex, sha512_hex};
use mod_updater::scan::{
    metadata_from_fabric_fields, metadata_from_mods_toml, metadata_from_mods_toml_entry,
    parse_quilt_mod_json, quilt_metadata_from_doc, select_metadata, sort_scans, ModMetadata, ModsTomlEntry, ScannedMod,
};
use mod_updater::tree::DataNode;

fn s(x: &str) -> DataNode {
    DataNode::Str(x.to_string())
}

fn obj(entries: Vec<(&str, DataNode)>) -> DataNode {
    DataNode::Obj(entries.into_iter().map(|(k, v)| (k.to_string(), v)).collect())
}

#[test]
fn digests_are_lowercase_hex() {
    assert_eq!(sha1_hex(b"abc"), "a9993e364706816aba3e25717850c26c9cd0d89d");
    assert_eq!(
        sha512_hex(b"abc"),
        "ddaf35a193617abacc417349ae20413112e6fa4e89a97ea20a9eeee64b55d39a2192992a274fc1a836ba3c23a3feebbd454d4423643ce80e2a9ac94fa54ca49f"
    );
    assert_eq!(sha1_hex(b"").len(), 40);
}

#[test]
fn fabric_and_forge_metadata() {
    let m = metadata_from_fabric_fields("testmod".into(), "1.2.3".into(), Some("Test Mod".into()));
    assert_eq!((m.id.as_str(), m.version.as_str(), m.display_name.as_str()), ("testmod", "1.2.3", "Test Mod"));
    let m = metadata_from_fabric_fields("testmod".into(), "1.2.3".into(), None);
    assert_eq!(m.display_name, "testmod");
    let m = metadata_from_mods_toml_entry("forgemod".into(), "2.0.0".into(), None, Some("Forge Mod".into()));
    assert_eq!((m.id.as_str(), m.version.as_str(), m.display_name.as_str()), ("forgemod", "2.0.0", "Forge Mod"));
    let m = metadata_from_mods_toml_entry("f".into(), "1".into(), Some("snake".into()), Some("camel".into()));
    assert_eq!(m.display_name, "snake");
    let m = metadata_from_mods_toml_entry("f".into(), "1".into(), None, None);
    assert_eq!(m.display_name, "f");
}

#[test]
fn quilt_metadata() {
    let doc = obj(vec![(
        "quilt_loader",
        obj(vec![
            ("id", s("qmod")),
            ("version", s("0.3")),
            ("metadata", obj(vec![("name", s("Q Mod"))])),
        ]),
    )]);
    let m = quilt_metadata_from_doc(&doc).unwrap();
    assert_eq!((m.id.as_str(), m.version.as_str(), m.display_name.as_str()), ("qmod", "0.3", "Q Mod"));
    let no_name = obj(vec![("quilt_loader", obj(vec![("id", s("qmod")), ("version", s("0.3"))]))]);
    assert_eq!(quilt_metadata_from_doc(&no_name).unwrap().display_name, "qmod");
    let no_version = obj(vec![("quilt_loader", obj(vec![("id", s("qmod"))]))]);
    assert!(quilt_metadata_from_doc(&no_version).is_none());
    assert!(quilt_metadata_from_doc(&DataNode::Null).is_none());
    let text = r#"{"quilt_loader":{"id":"qmod","version":"0.3","metadata":{"name":"Q Mod"}}}"#;
    let m = parse_quilt_mod_json(text).unwrap();
    assert_eq!((m.id.as_str(), m.version.as_str(), m.display_name.as_str()), ("qmod", "0.3", "Q Mod"));
    assert!(parse_quilt_mod_json("{not json").is_none());
}

fn meta(id: &str) -> Option<ModMetadata> {
    Some(ModMetadata { id: id.into(), version: "1".into(), display_name: id.into() })
}

#[test]
fn metadata_source_order() {
    assert_eq!(select_metadata(meta("f"), meta("q"), meta("t"), None).unwrap().id, "f");
    assert_eq!(select_metadata(None, meta("q"), meta("t"), None).unwrap().id, "q");
    assert_eq!(select_metadata(None, None, None, meta("n")).unwrap().id, "n");
    assert!(select_metadata(None, None, None, None).is_none());
}

#[test]
fn scans_sort_by_file_name() {
    let mk = |f: &str, sha: &str| ScannedMod {
        path: PathBuf::from(f),
        file_name: f.to_string(),
        sha512_hex: sha.to_string(),
        metadata: None,
    };
    let sorted = sort_scans(vec![mk("b.jar", "1"), mk("a.jar", "2"), mk("B.jar", "3"), mk("a.jar", "4")]);
    let got: Vec<(&str, &str)> = sorted.iter().map(|m| (m.file_name.as_str(), m.sha512_hex.as_str())).collect();
    assert_eq!(got, vec![("B.jar", "3"), ("a.jar", "2"), ("a.jar", "4"), ("b.jar", "1")]);
}

#[test]
fn mods_toml_uses_the_first_entry() {
    let entries = vec![
        ModsTomlEntry {
            mod_id: "forgemod".into(),
            version: "2.0.0".into(),
            display_name: None,
            display_name_camel: Some("Forge Mod".into()),
        },
        ModsTomlEntry {
            mod_id: "other".into(),
            version: "1".into(),
            display_name: None,
            display_name_camel: None,
        },
    ];
    let m = metadata_from_mods_toml(&entries).unwrap();
    assert_eq!((m.id.as_str(), m.version.as_str(), m.display_name.as_str()), ("forgemod", "2.0.0", "Forge Mod"));
    assert!(metadata_from_mods_toml(&[]).is_none());
}
