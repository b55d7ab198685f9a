use mod_updater::curseforge::{
    files_query, fingerprint_jar_bytes, fingerprint_matches_from, fingerprints_url,
    mod_files_url, mod_name_from, mod_url, search_hits_from, search_query, search_url,
    CfFilesScan, CfModLoader,
};
use mod_updater::tree::DataNode;

fn s(x: &str) -> DataNode {
    DataNode::Str(x.to_string())
}

fn obj(entries: Vec<(&str, DataNode)>) -> DataNode {
    DataNode::Obj(entries.into_iter().map(|(k, v)| (k.to_string(), v)).collect())
}

#[test]
fn fingerprint_matches_meza_vectors() {
    let t1 = b"# This is the first test file\n";
    let t2 = b"# This is the second test file\n";
    assert_eq!(fingerprint_jar_bytes(t1), 3_608_199_863);
    assert_eq!(fingerprint_jar_bytes(t2), 3_493_718_775);
}

#[test]
fn fingerprint_skips_whitespace() {
    let a = fingerprint_jar_bytes(b"# This is the first test file\n");
    let b = fingerprint_jar_bytes(b"#Thisisthefirsttestfile");
    let c = fingerprint_jar_bytes(b"\t# This is\r\n the first test file \n\n");
    assert_eq!(a, b);
    assert_eq!(a, c);
    assert_ne!(fingerprint_jar_bytes(b"abc"), fingerprint_jar_bytes(b"abd"));
}

#[test]
fn loader_ids_follow_the_api() {
    assert_eq!(CfModLoader::from_loader_str("forge").map(|l| l.id()), Some(1));
    assert_eq!(CfModLoader::from_loader_str("fabric").map(|l| l.id()), Some(4));
    assert_eq!(CfModLoader::from_loader_str("quilt").map(|l| l.id()), Some(5));
    assert_eq!(CfModLoader::from_loader_str("neoforge").map(|l| l.id()), Some(6));
    assert!(CfModLoader::from_loader_str("Fabric").is_none());
    assert!(CfModLoader::from_loader_str("liteloader").is_none());
}

#[test]
fn fingerprint_response_is_read_with_defaults() {
    let resp = obj(vec![(
        "data",
        obj(vec![(
            "exactMatches",
            DataNode::Arr(vec![
                obj(vec![(
                    "file",
                    obj(vec![
                        ("modId", DataNode::Int(238222)),
                        ("id", DataNode::Int(5000)),
                        ("fileName", s("jei-1.21.1-fabric.jar")),
                        ("downloadUrl", s("https://edge/jei.jar")),
                        ("gameVersions", DataNode::Arr(vec![s("1.21.1"), DataNode::Int(3), s("Fabric")])),
                        ("modLoader", DataNode::Int(4)),
                    ]),
                )]),
                obj(vec![]),
            ]),
        )]),
    )]);
    let ms = fingerprint_matches_from(&resp);
    assert_eq!(ms.len(), 2);
    assert_eq!(ms[0].mod_id, 238222);
    assert_eq!(ms[0].file_id, 5000);
    assert_eq!(ms[0].file_name, "jei-1.21.1-fabric.jar");
    assert_eq!(ms[0].download_url.as_deref(), Some("https://edge/jei.jar"));
    assert_eq!(ms[0].game_versions, vec!["1.21.1".to_string(), "Fabric".to_string()]);
    assert_eq!(ms[0].mod_loader, 4);
    assert_eq!(ms[1].mod_id, 0);
    assert_eq!(ms[1].file_name, "");
    assert!(ms[1].download_url.is_none());
    assert!(fingerprint_matches_from(&DataNode::Null).is_empty());
}

#[test]
fn search_hits_and_mod_name() {
    let resp = obj(vec![(
        "data",
        DataNode::Arr(vec![obj(vec![
            ("id", DataNode::Int(7)),
            ("name", s("Sodium")),
            ("slug", s("sodium")),
        ])]),
    )]);
    let hits = search_hits_from(&resp);
    assert_eq!(hits.len(), 1);
    assert_eq!(hits[0].id, 7);
    assert_eq!(hits[0].name, "Sodium");
    assert_eq!(hits[0].slug, "sodium");
    let m = obj(vec![("data", obj(vec![("name", s("Just Enough Items"))]))]);
    assert_eq!(mod_name_from(&m), "Just Enough Items");
    assert_eq!(mod_name_from(&DataNode::Null), "");
}

fn file(id: i64, name: &str, versions: &[&str], loader: i64, date: &str) -> DataNode {
    obj(vec![
        ("id", DataNode::Int(id)),
        ("fileName", s(name)),
        ("gameVersions", DataNode::Arr(versions.iter().map(|v| s(v)).collect())),
        ("modLoader", DataNode::Int(loader)),
        ("fileDate", s(date)),
        ("releaseType", DataNode::Int(1)),
        (
            "hashes",
            DataNode::Arr(vec![
                obj(vec![("value", s("md5md5")), ("algo", DataNode::Int(2))]),
                obj(vec![("value", s(&format!("sha1-{id}"))), ("algo", DataNode::Int(1))]),
            ]),
        ),
    ])
}

#[test]
fn files_scan_keeps_the_newest_match() {
    let mut scan = CfFilesScan::new();
    let page = obj(vec![(
        "data",
        DataNode::Arr(vec![
            file(1, "a-1.0.jar", &["1.21.1"], 4, "2024-01-01T00:00:00Z"),
            file(2, "a-2.0.jar", &["1.21.1"], 1, "2024-06-01T00:00:00Z"),
            file(3, "a-1.5.jar", &["1.21.1", "Fabric"], 4, "2024-03-01T00:00:00Z"),
            file(4, "a-3.0.jar", &["1.21"], 4, "2024-09-01T00:00:00Z"),
            file(5, "a-1.6.jar", &["1.21.1"], 4, "2024-03-01T00:00:00Z"),
        ]),
    )]);
    let more = scan.on_page(&page, "1.21.1", CfModLoader::from_loader_str("fabric"));
    assert!(!more);
    assert_eq!(scan.index, 5);
    assert_eq!(scan.candidates.len(), 3);
    let best = scan.finish().unwrap();
    assert_eq!(best.file_id, 3);
    assert_eq!(best.hash_sha1.as_deref(), Some("sha1-3"));
}

#[test]
fn files_scan_asks_for_more_after_a_full_page() {
    let mut scan = CfFilesScan::new();
    let files: Vec<DataNode> = (0..50)
        .map(|i| file(i, "x.jar", &["1.20.1"], 1, "2023-01-01"))
        .collect();
    let page = obj(vec![("data", DataNode::Arr(files))]);
    assert!(scan.on_page(&page, "1.20.1", None));
    assert_eq!(scan.index, 50);
    let empty = obj(vec![("data", DataNode::Arr(vec![]))]);
    assert!(!scan.on_page(&empty, "1.20.1", None));
    assert_eq!(scan.index, 50);
    assert_eq!(scan.candidates.len(), 50);
    assert!(CfFilesScan::new().finish().is_none());
}

#[test]
fn request_urls_and_queries() {
    assert_eq!(fingerprints_url(), "https://api.curseforge.com/v1/fingerprints/432");
    assert_eq!(search_url(), "https://api.curseforge.com/v1/mods/search");
    assert_eq!(mod_files_url(238222), "https://api.curseforge.com/v1/mods/238222/files");
    assert_eq!(mod_url(-7), "https://api.curseforge.com/v1/mods/-7");
    let q = search_query("Sodium", 5);
    assert_eq!(
        q,
        vec![
            ("gameId".to_string(), "432".to_string()),
            ("searchFilter".to_string(), "Sodium".to_string()),
            ("pageSize".to_string(), "5".to_string()),
        ]
    );
    assert_eq!(
        files_query(100),
        vec![("index".to_string(), "100".to_string()), ("pageSize".to_string(), "50".to_string())]
    );
    assert_eq!(mod_url(0), "https://api.curseforge.com/v1/mods/0");
}
