//! What installing an update does, before any file is touched.
use vstd::prelude::*;
use crate::curseforge::opt_view;
use crate::resolve::ResolvedMod;
use crate::text::{append_str, string_of};

verus! {

/// The steps of installing a row's update.
pub enum DownloadPlan {
    /// The row has no (or an empty) download URL.
    NoUrl,
    /// Dry run: nothing is written; the jar keeps its path.
    DryRun,
    /// Back up the jar when `backup`, fetch `url` into `<jar>.part`, check the fetched jar
    /// when `verify`, then move it over the jar.
    Fetch { url: String, backup: bool, verify: bool },
}

pub open spec fn plan_matches(
    p: DownloadPlan,
    url: Option<Seq<char>>,
    dry_run: bool,
    backup: bool,
    verify: bool,
) -> bool {
    match url {
        None => p is NoUrl,
        Some(u) => if u.len() == 0 {
            p is NoUrl
        } else if dry_run {
            p is DryRun
        } else {
            p matches DownloadPlan::Fetch { url: x, backup: b, verify: v } && x@ == u && b == backup
                && v == verify
        },
    }
}

/// The plan for downloading `row`'s update with these download settings.
pub fn plan_download(row: &ResolvedMod, dry_run: bool, backup: bool, verify: bool) -> (r:
    DownloadPlan)
    ensures
        plan_matches(r, opt_view(row.download_url), dry_run, backup, verify),
{
    match &row.download_url {
        None => DownloadPlan::NoUrl,
        Some(u) => {
            if u.unicode_len() == 0 {
                DownloadPlan::NoUrl
            } else if dry_run {
                DownloadPlan::DryRun
            } else {
                DownloadPlan::Fetch { url: u.clone(), backup, verify }
            }
        },
    }
}

/// The temporary file a download is written to: the jar's name with `.part` appended.
pub fn part_file_name(name: &str) -> (r: String)
    ensures
        r@ == name@ + ".part"@,
{
    let mut out: Vec<char> = Vec::new();
    append_str(&mut out, name);
    append_str(&mut out, ".part");
    string_of(out.as_slice())
}

/// What happens to a fetched jar.
pub enum InstallDecision {
    /// Move it over the installed jar.
    Replace,
    /// Discard it and keep the installed jar: it declares a Minecraft dependency that
    /// does not admit the target (the message says which).
    Reject(String),
}

/// A fetched jar replaces the installed one unless it is checked (`verify`) and the check
/// of its metadata (`check_jar_metadata`) finds a clear mismatch.
pub fn install_decision(verify: bool, check: Result<(), String>) -> (r: InstallDecision)
    ensures
        match check {
            Err(m) if verify => r matches InstallDecision::Reject(x) && x@ == m@,
            _ => r is Replace,
        },
{
    match check {
        Err(m) => if verify {
            InstallDecision::Reject(m)
        } else {
            InstallDecision::Replace
        },
        Ok(_) => InstallDecision::Replace,
    }
}

} // verus!
