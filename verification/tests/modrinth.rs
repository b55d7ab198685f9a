use mod_updater::download::{install_decision, part_file_name, plan_download, DownloadPlan, InstallDecision};
use mod_updater::modrinth::{
    project_url, status_is_failure, version_reply_decision, version_update_url, ReplyDecision,
};
use mod_updater::resolve::{ResolveStatus, ResolvedMod};
use mod_updater::scan::ScannedMod;

#[test]
fn rate_limits_back_off_then_fail() {
    let delays: Vec<ReplyDecision> = (0..7).map(|a| version_reply_decision(429, a)).collect();
    assert_eq!(delays[0], ReplyDecision::Retry { delay_ms: 400, next_attempt: 1 });
    assert_eq!(delays[1], ReplyDecision::Retry { delay_ms: 800, next_attempt: 2 });
    assert_eq!(delays[4], ReplyDecision::Retry { delay_ms: 6400, next_attempt: 5 });
    assert_eq!(delays[5], ReplyDecision::Retry { delay_ms: 6400, next_attempt: 6 });
    assert_eq!(delays[6], ReplyDecision::ApiError { status: 429 });
}

#[test]
fn reply_statuses() {
    assert_eq!(version_reply_decision(404, 0), ReplyDecision::NotFound);
    assert_eq!(version_reply_decision(500, 0), ReplyDecision::ApiError { status: 500 });
    assert_eq!(version_reply_decision(200, 3), ReplyDecision::Parse);
    assert_eq!(version_reply_decision(204, 0), ReplyDecision::Parse);
    assert!(status_is_failure(301));
    assert!(!status_is_failure(299));
}

#[test]
fn request_urls() {
    assert_eq!(
        version_update_url("abc"),
        "https://api.modrinth.com/v2/version_file/abc/update?algorithm=sha512"
    );
    assert_eq!(project_url("AANobbMI"), "https://api.modrinth.com/v2/project/AANobbMI");
}

fn row(url: Option<&str>) -> ResolvedMod {
    ResolvedMod {
        scan: ScannedMod {
            path: std::path::PathBuf::from("/mods/a.jar"),
            file_name: "a.jar".into(),
            sha512_hex: String::new(),
            metadata: None,
        },
        display_name: "a".into(),
        local_version: "1".into(),
        remote_version: None,
        source: None,
        status: ResolveStatus::UpdateAvailable,
        download_url: url.map(String::from),
        download_filename: None,
        detail: None,
        project_label: None,
        remote_file_sha512: None,
        identity_match: Some(false),
    }
}

#[test]
fn download_plans() {
    assert!(matches!(plan_download(&row(None), false, true, true), DownloadPlan::NoUrl));
    assert!(matches!(plan_download(&row(Some("")), false, true, true), DownloadPlan::NoUrl));
    assert!(matches!(plan_download(&row(Some("https://x")), true, true, true), DownloadPlan::DryRun));
    match plan_download(&row(Some("https://x")), false, false, true) {
        DownloadPlan::Fetch { url, backup, verify } => {
            assert_eq!(url, "https://x");
            assert!(!backup);
            assert!(verify);
        }
        _ => panic!("expected a fetch"),
    }
    assert_eq!(part_file_name("a.jar"), "a.jar.part");
}

#[test]
fn incompatible_downloads_are_rejected_when_checked() {
    assert!(matches!(install_decision(true, Ok(())), InstallDecision::Replace));
    assert!(matches!(install_decision(false, Err("x".into())), InstallDecision::Replace));
    match install_decision(true, Err("needs 1.20".into())) {
        InstallDecision::Reject(m) => assert_eq!(m, "needs 1.20"),
        InstallDecision::Replace => panic!("expected a rejection"),
    }
}
