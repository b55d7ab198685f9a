use std::path::PathBuf;

use mod_updater::config::{
    cli_api_key, default_backup, default_concurrency, default_verify_after_download,
    env_mods_dir, normalize_loader, CliOverrides, Config, ConfigError, DownloadConfig,
};

fn valid() -> Config {
    Config {
        mods_dir: Some(PathBuf::from("/tmp")),
        minecraft_version: Some("1.21.1".to_string()),
        loaders: vec!["Fabric ".to_string(), "quilt".to_string()],
        ..Config::default()
    }
}

#[test]
fn defaults() {
    let c = Config::default();
    assert!(c.mods_dir.is_none());
    assert_eq!(c.concurrency, 8);
    assert!(c.download.backup);
    assert!(!c.download.dry_run);
    assert!(DownloadConfig::default().backup_dir.is_none());
    assert!(DownloadConfig::default().verify_after_download);
    assert!(default_verify_after_download());
    assert!(default_backup());
    assert_eq!(default_concurrency(), 8);
    assert_eq!(c.user_agent(), "mod-updater/0.1.0");
    assert_eq!(Config { concurrency: 0, ..Config::default() }.worker_count(), 1);
    assert_eq!(Config { concurrency: 3, ..Config::default() }.worker_count(), 3);
}

#[test]
fn loaders_are_normalized() {
    assert_eq!(normalize_loader("  NeoForge\t"), "neoforge");
    assert_eq!(normalize_loader(&normalize_loader(" QUILT ")), normalize_loader(" QUILT "));
    assert_eq!(valid().normalized_loaders(), vec!["fabric".to_string(), "quilt".to_string()]);
}

#[test]
fn validation_reports_each_problem() {
    let c = valid().validate_with(true, "/tmp").unwrap();
    assert_eq!(c.minecraft_version(), "1.21.1");
    assert_eq!(c.mods_dir(), &PathBuf::from("/tmp"));

    let r = Config { mods_dir: None, ..valid() }.validate_with(true, "");
    assert!(matches!(r, Err(ConfigError::MissingModsDir)));

    match valid().validate_with(false, "/nope") {
        Err(ConfigError::InvalidModsDir(m)) => assert_eq!(m, "/nope is not a directory"),
        other => panic!("unexpected {other:?}"),
    }

    let r = Config { minecraft_version: Some(String::new()), ..valid() }.validate_with(true, "");
    assert!(matches!(r, Err(ConfigError::MissingMinecraftVersion)));
    let c = Config { minecraft_version: None, ..valid() }.validate_with(true, "").unwrap();
    assert_eq!(c.minecraft_version.as_deref(), Some("1.21.1"));
    assert_eq!(c.loaders, valid().loaders);

    let r = Config { loaders: vec![], ..valid() }.validate_with(true, "");
    assert!(matches!(r, Err(ConfigError::MissingLoaders)));

    let r = Config { loaders: vec!["fabric".into(), " Rift".into(), "bukkit".into()], ..valid() }
        .validate_with(true, "");
    match r {
        Err(ConfigError::InvalidLoader(l)) => assert_eq!(l, " Rift"),
        other => panic!("unexpected {other:?}"),
    }
    let all = ["fabric", "forge", "neoforge", "quilt", "liteloader", "cauldron"];
    let r = Config { loaders: all.iter().map(|s| s.to_string()).collect(), ..valid() }
        .validate_with(true, "");
    assert!(r.is_ok());
}

#[test]
fn validate_checks_the_filesystem() {
    let c = Config { mods_dir: Some(PathBuf::from("/")), ..valid() };
    assert!(c.validate().is_ok());
    let missing = Config { mods_dir: Some(PathBuf::from("/definitely/not/here/mods")), ..valid() };
    match missing.validate() {
        Err(ConfigError::InvalidModsDir(m)) => {
            assert_eq!(m, "/definitely/not/here/mods is not a directory")
        }
        other => panic!("unexpected {other:?}"),
    }
}

#[test]
fn command_line_overrides_the_file() {
    let base = Config {
        mods_dir: Some(PathBuf::from("/a")),
        minecraft_version: Some("1.20.1".into()),
        loaders: vec!["forge".into()],
        user_agent: Some("me".into()),
        curseforge_api_key: None,
        ..Config::default()
    };
    let cli = CliOverrides {
        mods_dir: None,
        minecraft_version: Some("1.21.1".into()),
        loaders: Some(vec![]),
        user_agent: None,
        curseforge_api_key: Some("key".into()),
    };
    let c = base.apply_cli(cli);
    assert_eq!(c.mods_dir, Some(PathBuf::from("/a")));
    assert_eq!(c.minecraft_version.as_deref(), Some("1.21.1"));
    assert_eq!(c.loaders, vec!["forge".to_string()]);
    assert_eq!(c.user_agent.as_deref(), Some("me"));
    assert_eq!(c.curseforge_api_key.as_deref(), Some("key"));
    let c = c.apply_cli(CliOverrides {
        mods_dir: Some(PathBuf::from("/b")),
        minecraft_version: None,
        loaders: Some(vec!["fabric".into()]),
        user_agent: Some("you".into()),
        curseforge_api_key: None,
    });
    assert_eq!(c.mods_dir, Some(PathBuf::from("/b")));
    assert_eq!(c.loaders, vec!["fabric".to_string()]);
    assert_eq!(c.user_agent(), "you");
}

#[test]
fn environment_fills_the_mods_dir() {
    assert_eq!(env_mods_dir(Some("  /srv/mods \n".into())).as_deref(), Some("/srv/mods"));
    assert_eq!(env_mods_dir(Some("   ".into())), None);
    assert_eq!(env_mods_dir(None), None);
    let dir = env_mods_dir(Some("  /srv/mods \n".into())).map(PathBuf::from);
    let c = Config::default().apply_env_mods_dir(dir);
    assert_eq!(c.mods_dir, Some(PathBuf::from("/srv/mods")));
    let c = Config::default().apply_env_mods_dir(None);
    assert!(c.mods_dir.is_none());
    let c = valid().apply_env_mods_dir(Some(PathBuf::from("/other")));
    assert_eq!(c.mods_dir, Some(PathBuf::from("/tmp")));
    assert_eq!(cli_api_key(None, Some("env".into())).as_deref(), Some("env"));
    assert_eq!(cli_api_key(None, Some(String::new())), None);
    assert_eq!(cli_api_key(Some("flag".into()), Some("env".into())).as_deref(), Some("flag"));
}
