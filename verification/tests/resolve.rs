use std::path::PathBuf;

use mod_updater::curseforge::{CfFileSummary, CfModLoader, CfModSearchHit, FingerprintMatch};
use mod_updater::modrinth::{ModrinthFile, ModrinthHashes, ModrinthProject, ModrinthVersion};
use mod_updater::resolve::{
    guess_version_from_filename, is_newer_version, loader_matches_file, mod_jar_name,
    modrinth_response_matches_request, pick_modrinth_file, pick_would_panic, sha1_identity_match,
    sort_resolved, RemoteSource, ResolveAction, ResolveContext, ResolveEvent, ResolveNext,
    ResolveStage, ResolveStatus, ResolvedMod, Resolver,
};
use mod_updater::scan::{ModMetadata, ScannedMod};

fn strings(v: &[&str]) -> Vec<String> {
    v.iter().map(|s| s.to_string()).collect()
}

fn mfile(name: &str, primary: Option<bool>, loaders: &[&str], sha512: Option<&str>) -> ModrinthFile {
    ModrinthFile {
        url: format!("https://cdn/{name}"),
        filename: name.to_string(),
        primary,
        loaders: strings(loaders),
        hashes: ModrinthHashes { sha512: sha512.map(String::from), sha1: None },
    }
}

fn version(files: Vec<ModrinthFile>, game_versions: &[&str], loaders: &[&str]) -> ModrinthVersion {
    ModrinthVersion {
        id: "v1".to_string(),
        project_id: "AANobbMI".to_string(),
        name: "Sodium 0.6.0".to_string(),
        version_number: "mc1.21.1-0.6.0-fabric".to_string(),
        version_type: Some("release".to_string()),
        files,
        game_versions: strings(game_versions),
        loaders: strings(loaders),
    }
}

fn scan(name: &str, meta: Option<(&str, &str)>) -> ScannedMod {
    ScannedMod {
        path: PathBuf::from(format!("/mods/{name}")),
        file_name: name.to_string(),
        sha512_hex: "ABCDEF".to_string(),
        metadata: meta.map(|(n, v)| ModMetadata {
            id: n.to_lowercase(),
            version: v.to_string(),
            display_name: n.to_string(),
        }),
    }
}

fn context(curse: bool) -> ResolveContext {
    ResolveContext::new(
        scan("sodium.jar", Some(("Sodium", "0.5.0"))),
        strings(&["fabric"]),
        "1.21.1".to_string(),
        curse,
    )
}

fn done(n: ResolveNext) -> ResolvedMod {
    match n {
        ResolveNext::Done(r) => r,
        ResolveNext::Await(..) => panic!("expected a finished row"),
    }
}

fn waiting(n: ResolveNext) -> (Resolver, ResolveAction) {
    match n {
        ResolveNext::Await(r, a) => (r, a),
        ResolveNext::Done(_) => panic!("expected another step"),
    }
}

#[test]
fn newer_versions_by_semver() {
    assert!(is_newer_version("1.2.3", "1.2.4"));
    assert!(!is_newer_version("1.2.4", "1.2.3"));
    assert!(!is_newer_version(" 1.2.3 ", "1.2.3"));
    assert!(is_newer_version("1.0.0-alpha", "1.0.0"));
    assert!(!is_newer_version("1.2", "1.3"));
    assert!(!is_newer_version("abc", "abd"));
    assert!(is_newer_version("1.0.0+mc1.20", "1.0.1+mc1.20"));
}

#[test]
fn jar_names_exclude_sources_and_dev_builds() {
    assert!(mod_jar_name("Sodium-0.6.0.JAR"));
    assert!(!mod_jar_name("sodium-0.6.0-sources.jar"));
    assert!(!mod_jar_name("sodium-0.6.0-javadoc.jar"));
    assert!(!mod_jar_name("sodium-0.6.0-dev.jar"));
    assert!(!mod_jar_name("sodium-0.6.0.zip"));
}

#[test]
fn response_must_match_request() {
    let loaders = strings(&["fabric"]);
    let v = version(vec![], &[" 1.21.1 "], &["Fabric"]);
    assert!(modrinth_response_matches_request(&v, "1.21.1", &loaders));
    let v = version(vec![], &["1.21"], &["fabric"]);
    assert!(!modrinth_response_matches_request(&v, "1.21.1", &loaders));
    let v = version(vec![], &[], &["forge"]);
    assert!(!modrinth_response_matches_request(&v, "1.21.1", &loaders));
    let v = version(vec![], &[], &[]);
    assert!(modrinth_response_matches_request(&v, "1.21.1", &loaders));
}

#[test]
fn loader_match_on_files() {
    let loaders = strings(&["quilt", "fabric"]);
    assert!(loader_matches_file(&mfile("a.jar", None, &[], None), &loaders));
    assert!(loader_matches_file(&mfile("a.jar", None, &["FABRIC"], None), &loaders));
    assert!(!loader_matches_file(&mfile("a.jar", None, &["forge"], None), &loaders));
}

#[test]
fn picks_primary_jar_for_loader_and_version() {
    let loaders = strings(&["fabric"]);
    let v = version(
        vec![
            mfile("mod-1.0-sources.jar", Some(true), &[], None),
            mfile("mod-forge-1.21.1.jar", Some(true), &["forge"], None),
            mfile("mod-fabric-1.20.jar", Some(true), &["fabric"], None),
            mfile("mod-fabric-1.21.1.jar", None, &["fabric"], None),
            mfile("mod-fabric-1.21.1-extra.jar", Some(true), &["fabric"], None),
        ],
        &[],
        &[],
    );
    assert!(!pick_would_panic(&v, &loaders, "1.21.1"));
    let f = pick_modrinth_file(&v, &loaders, "1.21.1").unwrap();
    assert_eq!(f.filename, "mod-fabric-1.21.1-extra.jar");
    let f = pick_modrinth_file(&v, &loaders, "1.19").unwrap();
    assert_eq!(f.filename, "mod-fabric-1.20.jar");
    let none = version(vec![mfile("readme.txt", Some(true), &[], None)], &[], &[]);
    assert!(pick_modrinth_file(&none, &loaders, "1.21.1").is_none());
    let other_loader = version(vec![mfile("mod-forge.jar", None, &["forge"], None)], &[], &[]);
    assert_eq!(
        pick_modrinth_file(&other_loader, &loaders, "1.21.1").unwrap().filename,
        "mod-forge.jar"
    );
}

#[test]
fn version_guess_from_file_name() {
    assert_eq!(guess_version_from_filename("jei-1.21.1-fabric-19.8.4.jar").as_deref(), Some("19.8.4"));
    assert_eq!(guess_version_from_filename("jei-fabric.jar"), None);
    assert_eq!(guess_version_from_filename("19.8.4.jar"), None);
    assert_eq!(guess_version_from_filename("mod-2.0"), Some("2.0".to_string()));
}

#[test]
fn sha1_identity_ignores_case() {
    let remote = Some("ABCDEF".to_string());
    assert_eq!(sha1_identity_match(&remote, &Some("abcdef".to_string())), Some(true));
    assert_eq!(sha1_identity_match(&remote, &Some("abcdee".to_string())), Some(false));
    assert_eq!(sha1_identity_match(&None, &Some("abcdef".to_string())), None);
    assert_eq!(sha1_identity_match(&remote, &None), None);
}

#[test]
fn context_from_scan() {
    let c = context(false);
    assert_eq!(c.display_name, "Sodium");
    assert_eq!(c.local_version, "0.5.0");
    assert!(matches!(c.cf_loader, Some(CfModLoader::Fabric)));
    let bare = ResolveContext::new(scan("x.jar", None), vec![], "1.21.1".to_string(), true);
    assert_eq!(bare.display_name, "x.jar");
    assert_eq!(bare.local_version, "?");
    assert!(bare.cf_loader.is_none());
}

#[test]
fn modrinth_hit_with_same_hash_is_up_to_date() {
    let (r, a) = Resolver::begin(context(false));
    match a {
        ResolveAction::LookupModrinthVersion { sha512_hex, loaders, game_versions } => {
            assert_eq!(sha512_hex, "ABCDEF");
            assert_eq!(loaders, strings(&["fabric"]));
            assert_eq!(game_versions, strings(&["1.21.1"]));
        }
        _ => panic!("expected the Modrinth lookup"),
    }
    let v = version(vec![mfile("sodium-1.21.1.jar", Some(true), &[], Some("abcdef"))], &["1.21.1"], &["fabric"]);
    let (r, a) = waiting(r.advance(ResolveEvent::ModrinthVersion(Ok(Some(v)))));
    assert!(matches!(a, ResolveAction::FetchModrinthProject { ref project_id } if project_id == "AANobbMI"));
    let p = ModrinthProject { id: "AANobbMI".into(), title: "Sodium".into(), slug: "sodium".into() };
    let row = done(r.advance(ResolveEvent::ModrinthProject(Ok(p))));
    assert_eq!(row.status, ResolveStatus::UpToDate);
    assert_eq!(row.identity_match, Some(true));
    assert_eq!(row.source, Some(RemoteSource::Modrinth));
    assert_eq!(row.scan.file_name, "sodium.jar");
    assert_eq!(row.display_name, "Sodium");
    assert_eq!(row.local_version, "0.5.0");
    assert_eq!(row.project_label.as_deref(), Some("Sodium (sodium)"));
    assert_eq!(row.remote_version.as_deref(), Some("mc1.21.1-0.6.0-fabric"));
    assert_eq!(row.download_url.as_deref(), Some("https://cdn/sodium-1.21.1.jar"));
    assert!(row.detail.is_none());
}

#[test]
fn modrinth_hit_with_other_or_missing_hash() {
    let (r, _) = Resolver::begin(context(false));
    let v = version(vec![mfile("sodium.jar", None, &[], Some("123"))], &[], &[]);
    let (r, _) = waiting(r.advance(ResolveEvent::ModrinthVersion(Ok(Some(v)))));
    let row = done(r.advance(ResolveEvent::ModrinthProject(Err("502".into()))));
    assert_eq!(row.status, ResolveStatus::UpdateAvailable);
    assert_eq!(row.identity_match, Some(false));
    assert!(row.project_label.is_none());

    let (r, _) = Resolver::begin(context(false));
    let v = version(vec![mfile("sodium.jar", None, &[], None)], &[], &[]);
    let (r, _) = waiting(r.advance(ResolveEvent::ModrinthVersion(Ok(Some(v)))));
    let row = done(r.advance(ResolveEvent::ModrinthProject(Err("502".into()))));
    assert_eq!(row.status, ResolveStatus::Unknown);
    assert_eq!(row.detail.as_deref(), Some("Modrinth: selected file is missing sha512 in API response"));

    let (r, _) = Resolver::begin(context(false));
    let v = version(vec![mfile("notes.txt", None, &[], None)], &[], &[]);
    let (r, _) = waiting(r.advance(ResolveEvent::ModrinthVersion(Ok(Some(v)))));
    let row = done(r.advance(ResolveEvent::ModrinthProject(Err("502".into()))));
    assert_eq!(row.status, ResolveStatus::Unknown);
    assert_eq!(row.detail.as_deref(), Some("Modrinth: no matching .jar for loader/MC in this version"));
    assert!(row.download_url.is_none());
}

#[test]
fn without_curseforge_a_miss_is_final() {
    let (r, _) = Resolver::begin(context(false));
    let row = done(r.advance(ResolveEvent::ModrinthVersion(Ok(None))));
    assert_eq!(row.status, ResolveStatus::Unknown);
    assert_eq!(row.source, None);
    assert_eq!(row.detail.as_deref(), Some("Not on Modrinth; CurseForge key missing or no match"));
    let (r, _) = Resolver::begin(context(false));
    let wrong = version(vec![], &["1.20"], &[]);
    let row = done(r.advance(ResolveEvent::ModrinthVersion(Ok(Some(wrong)))));
    assert_eq!(row.status, ResolveStatus::Unknown);
}

fn summary(id: i32, name: &str, sha1: Option<&str>) -> CfFileSummary {
    CfFileSummary {
        file_id: id,
        file_name: name.to_string(),
        download_url: Some(format!("https://edge/{name}")),
        game_versions: strings(&["1.21.1"]),
        mod_loader: 4,
        file_date: "2024-01-01".to_string(),
        release_type: 1,
        hash_sha1: sha1.map(String::from),
    }
}

#[test]
fn curseforge_fingerprint_path() {
    let (r, _) = Resolver::begin(context(true));
    let (r, a) = waiting(r.advance(ResolveEvent::ModrinthVersion(Err("timeout".into()))));
    assert!(matches!(a, ResolveAction::FingerprintJar));
    let (r, a) = waiting(r.advance(ResolveEvent::Fingerprint(Ok(42))));
    assert!(matches!(a, ResolveAction::LookupFingerprints { ref fingerprints } if fingerprints == &vec![42]));
    let m = FingerprintMatch {
        mod_id: 394468,
        file_id: 100,
        file_name: "sodium-fabric-0.5.0.jar".into(),
        download_url: None,
        game_versions: vec![],
        mod_loader: 4,
    };
    let (r, a) = waiting(r.advance(ResolveEvent::FingerprintMatches(Ok(vec![m]))));
    match a {
        ResolveAction::LatestFile { mod_id, minecraft_version, loader } => {
            assert_eq!(mod_id, 394468);
            assert_eq!(minecraft_version, "1.21.1");
            assert!(matches!(loader, Some(CfModLoader::Fabric)));
        }
        _ => panic!("expected the latest-file query"),
    }
    let latest = summary(101, "sodium-fabric-0.6.0.jar", None);
    let (r, a) = waiting(r.advance(ResolveEvent::LatestFile(Ok(Some(latest)))));
    assert!(matches!(a, ResolveAction::FetchModTitle { mod_id: 394468 }));
    assert!(!r.advance_would_panic(&ResolveEvent::ModTitle(Ok(String::new()))));
    let row = done(r.advance(ResolveEvent::ModTitle(Ok("Sodium".into()))));
    assert_eq!(row.status, ResolveStatus::UpdateAvailable);
    assert_eq!(row.identity_match, Some(false));
    assert_eq!(row.remote_version.as_deref(), Some("0.6.0"));
    assert_eq!(row.project_label.as_deref(), Some("Sodium"));
    assert_eq!(
        row.detail.as_deref(),
        Some("CurseForge jar name does not mention MC 1.21.1; double-check before playing")
    );
}

#[test]
fn curseforge_fingerprint_errors() {
    let (r, _) = Resolver::begin(context(true));
    let (r, _) = waiting(r.advance(ResolveEvent::ModrinthVersion(Ok(None))));
    let row = done(r.advance(ResolveEvent::Fingerprint(Err("No such file".into()))));
    assert_eq!(row.status, ResolveStatus::Error);
    assert_eq!(row.detail.as_deref(), Some("fingerprint: No such file"));

    let (r, _) = Resolver::begin(context(true));
    let (r, _) = waiting(r.advance(ResolveEvent::ModrinthVersion(Ok(None))));
    let (r, _) = waiting(r.advance(ResolveEvent::Fingerprint(Ok(1))));
    let m = FingerprintMatch {
        mod_id: 1,
        file_id: 2,
        file_name: "x.jar".into(),
        download_url: None,
        game_versions: vec![],
        mod_loader: 0,
    };
    let (r, _) = waiting(r.advance(ResolveEvent::FingerprintMatches(Ok(vec![m]))));
    let row = done(r.advance(ResolveEvent::LatestFile(Ok(None))));
    assert_eq!(row.status, ResolveStatus::Unknown);
    assert_eq!(row.source, Some(RemoteSource::CurseForge));
    assert_eq!(row.detail.as_deref(), Some("No file for target MC/loader on CurseForge"));
}

#[test]
fn curseforge_search_path() {
    let (r, _) = Resolver::begin(context(true));
    let (r, _) = waiting(r.advance(ResolveEvent::ModrinthVersion(Ok(None))));
    let (r, _) = waiting(r.advance(ResolveEvent::Fingerprint(Ok(1))));
    let (r, a) = waiting(r.advance(ResolveEvent::FingerprintMatches(Ok(vec![]))));
    assert!(matches!(a, ResolveAction::SearchMods { ref query, page_size: 5 } if query == "Sodium"));
    assert!(matches!(r.stage, ResolveStage::Search));
    let hit = CfModSearchHit { id: 394468, name: "Sodium".into(), slug: "sodium".into() };
    let (r, _) = waiting(r.advance(ResolveEvent::SearchHits(Ok(vec![hit]))));
    let latest = summary(7, "sodium-mc1.21.1-0.6.0.jar", Some("AAAA"));
    let (r, a) = waiting(r.advance(ResolveEvent::LatestFile(Ok(Some(latest)))));
    assert!(matches!(a, ResolveAction::HashLocalSha1));
    let row = done(r.advance(ResolveEvent::LocalSha1(Ok("aaaa".into()))));
    assert_eq!(row.status, ResolveStatus::UpToDate);
    assert_eq!(row.detail.as_deref(), Some("matched via search + sha1"));
    assert_eq!(row.project_label.as_deref(), Some("Sodium (sodium)"));
    assert_eq!(row.remote_version.as_deref(), Some("0.6.0"));

    let (r, _) = Resolver::begin(context(true));
    let (r, _) = waiting(r.advance(ResolveEvent::ModrinthVersion(Ok(None))));
    let (r, _) = waiting(r.advance(ResolveEvent::Fingerprint(Ok(1))));
    let (r, _) = waiting(r.advance(ResolveEvent::FingerprintMatches(Err("403".into()))));
    let hit = CfModSearchHit { id: 9, name: "S".into(), slug: "s".into() };
    let (r, _) = waiting(r.advance(ResolveEvent::SearchHits(Ok(vec![hit]))));
    let row = done(r.advance(ResolveEvent::LatestFile(Ok(Some(summary(8, "s.jar", None))))));
    assert_eq!(row.status, ResolveStatus::Unknown);
    assert_eq!(row.detail.as_deref(), Some("matched via search; no exact hash identity"));
    assert_eq!(row.remote_version.as_deref(), Some("s.jar"));

    let (r, _) = Resolver::begin(context(true));
    let (r, _) = waiting(r.advance(ResolveEvent::ModrinthVersion(Ok(None))));
    let (r, _) = waiting(r.advance(ResolveEvent::Fingerprint(Ok(1))));
    let (r, _) = waiting(r.advance(ResolveEvent::FingerprintMatches(Ok(vec![]))));
    let row = done(r.advance(ResolveEvent::SearchHits(Ok(vec![]))));
    assert_eq!(row.detail.as_deref(), Some("Not on Modrinth; CurseForge key missing or no match"));
}

#[test]
fn rows_sort_by_name_then_file() {
    let mk = |name: &str, file: &str| {
        let c = ResolveContext::new(scan(file, Some((name, "1"))), vec![], "1.21.1".into(), false);
        let (r, _) = Resolver::begin(c);
        done(r.advance(ResolveEvent::ModrinthVersion(Ok(None))))
    };
    let rows = vec![mk("beta", "b2.jar"), mk("Alpha", "a.jar"), mk("beta", "b1.jar"), mk("BETA", "b0.jar")];
    let sorted = sort_resolved(rows);
    let files: Vec<&str> = sorted.iter().map(|r| r.scan.file_name.as_str()).collect();
    assert_eq!(files, vec!["a.jar", "b0.jar", "b1.jar", "b2.jar"]);
}
