//! Modrinth API records and the client's reply handling.
use vstd::prelude::*;
use crate::curseforge::opt_view;
use crate::text::{append_str, string_of, strings_view};

verus! {

/// The hashes Modrinth lists for a file (lowercase hex).
#[derive(Debug, Clone)]
pub struct ModrinthHashes {
    pub sha512: Option<String>,
    pub sha1: Option<String>,
}

/// One downloadable file of a Modrinth version.
#[derive(Debug, Clone)]
pub struct ModrinthFile {
    pub url: String,
    pub filename: String,
    pub primary: Option<bool>,
    pub loaders: Vec<String>,
    pub hashes: ModrinthHashes,
}

/// A Modrinth project version.
#[derive(Debug, Clone)]
pub struct ModrinthVersion {
    pub id: String,
    pub project_id: String,
    pub name: String,
    pub version_number: String,
    pub version_type: Option<String>,
    pub files: Vec<ModrinthFile>,
    pub game_versions: Vec<String>,
    pub loaders: Vec<String>,
}

/// A Modrinth project.
#[derive(Debug, Clone)]
pub struct ModrinthProject {
    pub id: String,
    pub title: String,
    pub slug: String,
}

pub struct ModrinthFileView {
    pub url: Seq<char>,
    pub filename: Seq<char>,
    pub primary: Option<bool>,
    pub loaders: Seq<Seq<char>>,
    pub sha512: Option<Seq<char>>,
    pub sha1: Option<Seq<char>>,
}

impl View for ModrinthFile {
    type V = ModrinthFileView;

    open spec fn view(&self) -> ModrinthFileView {
        ModrinthFileView {
            url: self.url@,
            filename: self.filename@,
            primary: self.primary,
            loaders: strings_view(self.loaders@),
            sha512: opt_view(self.hashes.sha512),
            sha1: opt_view(self.hashes.sha1),
        }
    }
}

pub open spec fn files_view(v: Seq<ModrinthFile>) -> Seq<ModrinthFileView> {
    v.map_values(|f: ModrinthFile| f@)
}

pub struct ModrinthVersionView {
    pub id: Seq<char>,
    pub project_id: Seq<char>,
    pub name: Seq<char>,
    pub version_number: Seq<char>,
    pub version_type: Option<Seq<char>>,
    pub files: Seq<ModrinthFileView>,
    pub game_versions: Seq<Seq<char>>,
    pub loaders: Seq<Seq<char>>,
}

impl View for ModrinthVersion {
    type V = ModrinthVersionView;

    open spec fn view(&self) -> ModrinthVersionView {
        ModrinthVersionView {
            id: self.id@,
            project_id: self.project_id@,
            name: self.name@,
            version_number: self.version_number@,
            version_type: opt_view(self.version_type),
            files: files_view(self.files@),
            game_versions: strings_view(self.game_versions@),
            loaders: strings_view(self.loaders@),
        }
    }
}

pub struct ModrinthProjectView {
    pub id: Seq<char>,
    pub title: Seq<char>,
    pub slug: Seq<char>,
}

impl View for ModrinthProject {
    type V = ModrinthProjectView;

    open spec fn view(&self) -> ModrinthProjectView {
        ModrinthProjectView { id: self.id@, title: self.title@, slug: self.slug@ }
    }
}

/// Root of the Modrinth v2 API.
pub open spec fn api_base() -> Seq<char> {
    "https://api.modrinth.com/v2"@
}

/// How many times a rate-limited request is sent again.
pub const MAX_RATE_LIMIT_RETRIES: u32 = 6;

/// What the client does with the status of a reply to a version-by-hash request.
#[derive(Debug, Clone, Copy, PartialEq, Eq)]
pub enum ReplyDecision {
    /// Rate limited: wait this many milliseconds and send the request again.
    Retry { delay_ms: u64, next_attempt: u32 },
    /// The hash is unknown to Modrinth.
    NotFound,
    /// A failure status, reported as an API error.
    ApiError { status: u16 },
    /// Success: the body holds the version.
    Parse,
}

/// `400 ms * 2^min(attempt, 4)`.
pub open spec fn backoff_ms(attempt: u32) -> u64 {
    if attempt == 0 {
        400
    } else if attempt == 1 {
        800
    } else if attempt == 2 {
        1600
    } else if attempt == 3 {
        3200
    } else {
        6400
    }
}

pub open spec fn is_success(status: u16) -> bool {
    200 <= status <= 299
}

pub open spec fn reply_decision(status: u16, attempt: u32) -> ReplyDecision {
    if status == 429 && attempt < MAX_RATE_LIMIT_RETRIES {
        ReplyDecision::Retry { delay_ms: backoff_ms(attempt), next_attempt: (attempt + 1) as u32 }
    } else if status == 404 {
        ReplyDecision::NotFound
    } else if !is_success(status) {
        ReplyDecision::ApiError { status }
    } else {
        ReplyDecision::Parse
    }
}

/// The decision on a reply to `POST /version_file/{hash}/update`, sent for the
/// `attempt`-th time (counting from 0): a 429 is retried up to six times with
/// exponential backoff, a 404 means no version, another non-2xx status is an error.
pub fn version_reply_decision(status: u16, attempt: u32) -> (r: ReplyDecision)
    ensures
        r == reply_decision(status, attempt),
{
    if status == 429 && attempt < MAX_RATE_LIMIT_RETRIES {
        let shift: u32 = if attempt < 4 { attempt } else { 4 };
        let factor: u64 = if shift == 0 {
            1
        } else if shift == 1 {
            2
        } else if shift == 2 {
            4
        } else if shift == 3 {
            8
        } else {
            16
        };
        ReplyDecision::Retry { delay_ms: 400 * factor, next_attempt: attempt + 1 }
    } else if status == 404 {
        ReplyDecision::NotFound
    } else if !(200 <= status && status <= 299) {
        ReplyDecision::ApiError { status }
    } else {
        ReplyDecision::Parse
    }
}

/// A rate-limited request is retried at most six times, each time after 400 ms to
/// 6.4 s, the attempt count going up by one.
pub proof fn law_retries_are_bounded(status: u16, attempt: u32)
    ensures
        reply_decision(status, attempt) matches ReplyDecision::Retry { delay_ms, next_attempt } ==> {
            &&& attempt < MAX_RATE_LIMIT_RETRIES
            &&& next_attempt == attempt + 1
            &&& 400 <= delay_ms <= 6400
        },
        attempt >= MAX_RATE_LIMIT_RETRIES ==> !(reply_decision(status, attempt) is Retry),
{
}

/// A reply status that the clients report as an API error (any non-2xx status, as for
/// `GET /project/{id}` and the CurseForge endpoints).
pub fn status_is_failure(status: u16) -> (r: bool)
    ensures
        r == !is_success(status),
{
    !(200 <= status && status <= 299)
}

/// `{base}/version_file/{hash}/update?algorithm=sha512`.
pub fn version_update_url(hash_hex: &str) -> (r: String)
    ensures
        r@ == api_base() + "/version_file/"@ + hash_hex@ + "/update?algorithm=sha512"@,
{
    let mut out: Vec<char> = Vec::new();
    append_str(&mut out, "https://api.modrinth.com/v2");
    append_str(&mut out, "/version_file/");
    append_str(&mut out, hash_hex);
    append_str(&mut out, "/update?algorithm=sha512");
    proof {
        assert(out@ == api_base() + "/version_file/"@ + hash_hex@ + "/update?algorithm=sha512"@);
    }
    string_of(out.as_slice())
}

/// `{base}/project/{id}`.
pub fn project_url(project_id: &str) -> (r: String)
    ensures
        r@ == api_base() + "/project/"@ + project_id@,
{
    let mut out: Vec<char> = Vec::new();
    append_str(&mut out, "https://api.modrinth.com/v2");
    append_str(&mut out, "/project/");
    append_str(&mut out, project_id);
    string_of(out.as_slice())
}

} // verus!
