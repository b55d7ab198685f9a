//! The configuration: defaults, command-line and environment overrides, validation.
use std::path::PathBuf;
use vstd::prelude::*;
use crate::paths::{path_display, path_is_dir};
use crate::text::{append_str, ascii_lower, lemma_lower_trim_idempotent, chars_of, lower_chars, string_of, str_eq, strings_view, trim, trim_chars};

verus! {

/// `std::io::Error`, carried as an opaque value.
#[verifier::external_type_specification]
#[verifier::external_body]
pub struct ExIoError(std::io::Error);

/// `toml::de::Error`, carried as an opaque value.
#[verifier::external_type_specification]
#[verifier::external_body]
pub struct ExTomlError(toml::de::Error);

/// Why a configuration cannot be used.
#[derive(Debug)]
pub enum ConfigError {
    Read(std::io::Error),
    Parse(toml::de::Error),
    MissingMinecraftVersion,
    MissingLoaders,
    MissingModsDir,
    InvalidModsDir(String),
    InvalidLoader(String),
}

/// The `[download]` table.
#[derive(Debug, Clone)]
pub struct DownloadConfig {
    pub backup: bool,
    pub backup_dir: Option<PathBuf>,
    pub dry_run: bool,
    /// Check a downloaded jar's declared Minecraft dependency before installing it.
    pub verify_after_download: bool,
}

/// Checking downloads is on unless turned off.
pub fn default_verify_after_download() -> (r: bool)
    ensures
        r,
{
    true
}

/// Backups are on unless turned off.
pub fn default_backup() -> (r: bool)
    ensures
        r,
{
    true
}

impl Default for DownloadConfig {
    fn default() -> (r: Self)
        ensures
            r.backup,
            r.backup_dir is None,
            !r.dry_run,
            r.verify_after_download,
    {
        DownloadConfig { backup: true, backup_dir: None, dry_run: false, verify_after_download: true }
    }
}

/// The configuration file, with what the command line and environment override.
#[derive(Debug, Clone)]
pub struct Config {
    /// Directory containing `.jar` mods.
    pub mods_dir: Option<PathBuf>,
    /// Target Minecraft version, e.g. `1.21.1`.
    pub minecraft_version: Option<String>,
    /// Mod loaders to query (e.g. fabric, forge).
    pub loaders: Vec<String>,
    /// The User-Agent sent to Modrinth.
    pub user_agent: Option<String>,
    pub curseforge_api_key: Option<String>,
    pub concurrency: usize,
    pub download: DownloadConfig,
}

/// Eight requests at a time unless configured.
pub fn default_concurrency() -> (r: usize)
    ensures
        r == 8,
{
    8
}

impl Default for Config {
    fn default() -> (r: Self)
        ensures
            r.mods_dir is None,
            r.minecraft_version is None,
            r.loaders@.len() == 0,
            r.user_agent is None,
            r.curseforge_api_key is None,
            r.concurrency == 8,
            r.download.backup,
            r.download.backup_dir is None,
            !r.download.dry_run,
            r.download.verify_after_download,
    {
        Config {
            mods_dir: None,
            minecraft_version: None,
            loaders: Vec::new(),
            user_agent: None,
            curseforge_api_key: None,
            concurrency: default_concurrency(),
            download: DownloadConfig::default(),
        }
    }
}

/// A loader name as compared: trimmed and in ASCII lowercase.
pub open spec fn normalized_loader(s: Seq<char>) -> Seq<char> {
    ascii_lower(trim(s))
}

pub fn normalize_loader(s: &str) -> (r: String)
    ensures
        r@ == normalized_loader(s@),
{
    let c = chars_of(s);
    let t = trim_chars(c.as_slice());
    let l = lower_chars(t.as_slice());
    string_of(l.as_slice())
}

/// Normalizing a normalized loader name changes nothing.
pub proof fn law_normalize_loader_idempotent(s: Seq<char>)
    ensures
        normalized_loader(normalized_loader(s)) == normalized_loader(s),
{
    lemma_lower_trim_idempotent(s);
}

/// The loaders the configuration accepts.
pub open spec fn known_loader(n: Seq<char>) -> bool {
    ||| n == "fabric"@
    ||| n == "forge"@
    ||| n == "neoforge"@
    ||| n == "quilt"@
    ||| n == "liteloader"@
    ||| n == "cauldron"@
}

fn is_known_loader(n: &str) -> (r: bool)
    ensures
        r == known_loader(n@),
{
    str_eq(n, "fabric") || str_eq(n, "forge") || str_eq(n, "neoforge") || str_eq(n, "quilt")
        || str_eq(n, "liteloader") || str_eq(n, "cauldron")
}

/// The first configured loader that is not a known one, after normalizing.
pub open spec fn first_bad_loader(loaders: Seq<Seq<char>>, i: int) -> Option<int>
    decreases loaders.len() - i,
{
    if i >= loaders.len() {
        None
    } else if !known_loader(normalized_loader(loaders[i])) {
        Some(i)
    } else {
        first_bad_loader(loaders, i + 1)
    }
}

/// What validation reports, given whether the mods directory is a directory:
/// `None` when the configuration is usable.
pub enum ValidationIssue {
    MissingModsDir,
    NotADirectory,
    MissingMinecraftVersion,
    MissingLoaders,
    InvalidLoader(int),
}

pub open spec fn validation_issue(c: Config, is_dir: bool) -> Option<ValidationIssue> {
    if c.mods_dir is None {
        Some(ValidationIssue::MissingModsDir)
    } else if !is_dir {
        Some(ValidationIssue::NotADirectory)
    } else if c.minecraft_version matches Some(v) && v@.len() == 0 {
        Some(ValidationIssue::MissingMinecraftVersion)
    } else if c.loaders@.len() == 0 {
        Some(ValidationIssue::MissingLoaders)
    } else {
        match first_bad_loader(strings_view(c.loaders@), 0) {
            Some(i) => Some(ValidationIssue::InvalidLoader(i)),
            None => None,
        }
    }
}

/// The error matches the issue; `InvalidModsDir` carries `text` followed by
/// ` is not a directory`, and `InvalidLoader` the loader as configured.
pub open spec fn error_for(e: ConfigError, issue: ValidationIssue, c: Config, text: Seq<char>) -> bool {
    match issue {
        ValidationIssue::MissingModsDir => e is MissingModsDir,
        ValidationIssue::NotADirectory => e matches ConfigError::InvalidModsDir(m) && m@ == text
            + " is not a directory"@,
        ValidationIssue::MissingMinecraftVersion => e is MissingMinecraftVersion,
        ValidationIssue::MissingLoaders => e is MissingLoaders,
        ValidationIssue::InvalidLoader(i) => e matches ConfigError::InvalidLoader(l) && l@
            == c.loaders@[i]@,
    }
}

/// The Minecraft version used when none is configured.
pub open spec fn default_minecraft_version() -> Seq<char> {
    "1.21.1"@
}

/// `x` is `c` once validated: unchanged, except that a missing Minecraft version becomes
/// the default one.
pub open spec fn validated_as(x: Config, c: Config) -> bool {
    &&& x.mods_dir == c.mods_dir
    &&& x.loaders == c.loaders
    &&& x.user_agent == c.user_agent
    &&& x.curseforge_api_key == c.curseforge_api_key
    &&& x.concurrency == c.concurrency
    &&& x.download == c.download
    &&& match c.minecraft_version {
        Some(_) => x.minecraft_version == c.minecraft_version,
        None => x.minecraft_version matches Some(v) && v@ == default_minecraft_version(),
    }
}

/// `r` is what validating `c` gives when the mods directory is (`is_dir`) or is not a
/// directory, `text` being the directory as displayed.
pub open spec fn validated(r: Result<Config, ConfigError>, c: Config, is_dir: bool, text: Seq<char>) -> bool {
    match validation_issue(c, is_dir) {
        None => r matches Ok(x) && validated_as(x, c),
        Some(issue) => r matches Err(e) && error_for(e, issue, c, text),
    }
}

impl Config {
    /// Validation once it is known whether the mods directory is a directory (what
    /// `is_dir` says; it is not consulted when no directory is configured).
    pub fn validate_with(self, is_dir: bool, dir_text: &str) -> (r: Result<Self, ConfigError>)
        ensures
            validated(r, self, is_dir, dir_text@),
    {
        if self.mods_dir.is_none() {
            return Err(ConfigError::MissingModsDir);
        }
        if !is_dir {
            let mut out: Vec<char> = Vec::new();
            append_str(&mut out, dir_text);
            append_str(&mut out, " is not a directory");
            return Err(ConfigError::InvalidModsDir(string_of(out.as_slice())));
        }
        if let Some(v) = &self.minecraft_version {
            if v.unicode_len() == 0 {
                return Err(ConfigError::MissingMinecraftVersion);
            }
        }
        if self.loaders.len() == 0 {
            return Err(ConfigError::MissingLoaders);
        }
        let ghost lv = strings_view(self.loaders@);
        let mut i: usize = 0;
        while i < self.loaders.len()
            invariant
                i <= self.loaders@.len(),
                lv == strings_view(self.loaders@),
                first_bad_loader(lv, 0) == first_bad_loader(lv, i as int),
                self.mods_dir is Some,
                is_dir,
                self.minecraft_version matches Some(v) ==> v@.len() > 0,
                self.loaders@.len() > 0,
            decreases self.loaders@.len() - i,
        {
            let n = normalize_loader(self.loaders[i].as_str());
            assert(lv[i as int] == self.loaders@[i as int]@);
            if !is_known_loader(n.as_str()) {
                assert(first_bad_loader(lv, i as int) == Some(i as int));
                return Err(ConfigError::InvalidLoader(self.loaders[i].clone()));
            }
            i = i + 1;
        }
        let mut cfg = self;
        if cfg.minecraft_version.is_none() {
            cfg.minecraft_version = Some(String::from_str("1.21.1"));
        }
        Ok(cfg)
    }

    /// Checks that the configuration can be used: a mods directory that is a directory
    /// on disk, a Minecraft version that is not empty (`1.21.1` when none is set), and at
    /// least one loader, all of them known.
    /// Whether the directory exists is the filesystem's answer, so this states the error
    /// for each issue that does not depend on it, and that a success has none.
    pub fn validate(self) -> (r: Result<Self, ConfigError>)
        ensures
            self.mods_dir is None ==> r matches Err(ConfigError::MissingModsDir),
            self.mods_dir is Some ==> (r matches Err(ConfigError::InvalidModsDir(_)) || validated(
                r,
                self,
                true,
                Seq::empty(),
            )),
    {
        let (is_dir, text) = match &self.mods_dir {
            Some(p) => (path_is_dir(p), path_display(p)),
            None => (false, String::new()),
        };
        self.validate_with(is_dir, text.as_str())
    }

    /// The mods directory of a validated configuration.
    pub fn mods_dir(&self) -> (r: &PathBuf)
        requires
            self.mods_dir is Some,
        ensures
            *r == self.mods_dir->0,
    {
        self.mods_dir.as_ref().unwrap()
    }

    /// The Minecraft version of a validated configuration.
    pub fn minecraft_version(&self) -> (r: &str)
        requires
            self.minecraft_version is Some,
        ensures
            r@ == self.minecraft_version->0@,
    {
        match &self.minecraft_version {
            Some(v) => v.as_str(),
            None => "",
        }
    }

    /// The configured loaders, normalized.
    pub fn normalized_loaders(&self) -> (r: Vec<String>)
        ensures
            r@.len() == self.loaders@.len(),
            forall|i: int|
                0 <= i < r@.len() ==> (#[trigger] r@[i])@ == normalized_loader(self.loaders@[i]@),
    {
        let mut out: Vec<String> = Vec::new();
        let mut i: usize = 0;
        while i < self.loaders.len()
            invariant
                i <= self.loaders@.len(),
                out@.len() == i,
                forall|j: int|
                    0 <= j < i ==> (#[trigger] out@[j])@ == normalized_loader(self.loaders@[j]@),
            decreases self.loaders@.len() - i,
        {
            out.push(normalize_loader(self.loaders[i].as_str()));
            i = i + 1;
        }
        out
    }

    /// How many jars are resolved at once: the configured number, at least one.
    pub fn worker_count(&self) -> (r: usize)
        ensures
            r == if self.concurrency > 1 {
                self.concurrency
            } else {
                1
            },
    {
        if self.concurrency > 1 {
            self.concurrency
        } else {
            1
        }
    }

    /// The User-Agent for Modrinth: the configured one, else `mod-updater/0.1.0`.
    pub fn user_agent(&self) -> (r: String)
        ensures
            r@ == (match self.user_agent {
                Some(u) => u@,
                None => "mod-updater/0.1.0"@,
            }),
    {
        match &self.user_agent {
            Some(u) => u.clone(),
            None => String::from_str("mod-updater/0.1.0"),
        }
    }
}

/// What the command line gives, each when present.
pub struct CliOverrides {
    pub mods_dir: Option<PathBuf>,
    pub minecraft_version: Option<String>,
    pub loaders: Option<Vec<String>>,
    pub user_agent: Option<String>,
    pub curseforge_api_key: Option<String>,
}

/// The API key: the command line's, else a non-empty `CURSEFORGE_API_KEY`.
pub fn cli_api_key(flag: Option<String>, env: Option<String>) -> (r: Option<String>)
    ensures
        r == (match flag {
            Some(k) => Some(k),
            None => match env {
                Some(e) => if e@.len() > 0 {
                    Some(e)
                } else {
                    None
                },
                None => None,
            },
        }),
{
    match flag {
        Some(k) => Some(k),
        None => match env {
            Some(e) => if e.unicode_len() > 0 {
                Some(e)
            } else {
                None
            },
            None => None,
        },
    }
}

impl Config {
    /// The command line overrides the file: each flag that is given replaces the
    /// setting; loaders only when at least one is given.
    pub fn apply_cli(self, cli: CliOverrides) -> (r: Config)
        ensures
            r.mods_dir == (match cli.mods_dir {
                Some(d) => Some(d),
                None => self.mods_dir,
            }),
            r.minecraft_version == (match cli.minecraft_version {
                Some(v) => Some(v),
                None => self.minecraft_version,
            }),
            r.loaders == (match cli.loaders {
                Some(l) => if l@.len() > 0 {
                    l
                } else {
                    self.loaders
                },
                None => self.loaders,
            }),
            r.user_agent == (match cli.user_agent {
                Some(u) => Some(u),
                None => self.user_agent,
            }),
            r.curseforge_api_key == (match cli.curseforge_api_key {
                Some(k) => Some(k),
                None => self.curseforge_api_key,
            }),
            r.concurrency == self.concurrency,
            r.download == self.download,
    {
        let mut cfg = self;
        if let Some(d) = cli.mods_dir {
            cfg.mods_dir = Some(d);
        }
        if let Some(v) = cli.minecraft_version {
            cfg.minecraft_version = Some(v);
        }
        if let Some(l) = cli.loaders {
            if l.len() > 0 {
                cfg.loaders = l;
            }
        }
        if let Some(u) = cli.user_agent {
            cfg.user_agent = Some(u);
        }
        if let Some(k) = cli.curseforge_api_key {
            cfg.curseforge_api_key = Some(k);
        }
        cfg
    }

    /// Without a mods directory, `dir` (the directory from the environment, if any) is
    /// used.
    pub fn apply_env_mods_dir(self, dir: Option<PathBuf>) -> (r: Config)
        ensures
            r.mods_dir == (if self.mods_dir is None {
                dir
            } else {
                self.mods_dir
            }),
            r.minecraft_version == self.minecraft_version,
            r.loaders == self.loaders,
            r.user_agent == self.user_agent,
            r.curseforge_api_key == self.curseforge_api_key,
            r.concurrency == self.concurrency,
            r.download == self.download,
    {
        let mut cfg = self;
        if cfg.mods_dir.is_none() {
            cfg.mods_dir = dir;
        }
        cfg
    }
}

/// The mods directory that `MOD_UPDATER_MODS_DIR` gives: its value trimmed, unless that
/// is empty.
pub fn env_mods_dir(env: Option<String>) -> (r: Option<String>)
    ensures
        match env {
            Some(e) => if trim(e@).len() > 0 {
                r matches Some(d) && d@ == trim(e@)
            } else {
                r is None
            },
            None => r is None,
        },
{
    match env {
        Some(e) => {
            let c = chars_of(e.as_str());
            let t = trim_chars(c.as_slice());
            if t.len() > 0 {
                Some(string_of(t.as_slice()))
            } else {
                None
            }
        },
        None => None,
    }
}

} // verus!
