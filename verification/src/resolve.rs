//! Deciding, for each scanned jar, which remote file is its update.
use vstd::prelude::*;
use crate::mc_version::{declares_mc, declares_mc_panics, filename_declares_mc, filename_declares_mc_panics, occurs_at, occurs_at_exec, split_chars, split_on};
use crate::curseforge::{
    CfFileSummary, CfFileSummaryView, CfModLoader, CfModSearchHit, CfModSearchHitView,
    FingerprintMatch, FingerprintMatchView, loader_named, opt_view,
};
use crate::modrinth::{
    ModrinthFile, ModrinthFileView, ModrinthProject, ModrinthProjectView, ModrinthVersion,
    ModrinthVersionView, files_view,
};
use crate::scan::{ScannedMod, ScannedModView};
use crate::sort::{KeyView, SortKey, stable_sort, stable_sort_of};
use crate::text::{
    append_str, chars_eq, chars_eq_ignore_case, chars_of, chars_ends_with, eq_ignore_case,
    ends_with, is_ascii_digit, lower_chars, ascii_lower, slice_chars, string_of, strings_view,
    trim, trim_chars,
};

verus! {

/// Where an update was found.
#[derive(Debug, Clone, Copy, PartialEq, Eq, Structural)]
pub enum RemoteSource {
    Modrinth,
    CurseForge,
}

/// The state of one row of the update table.
#[derive(Debug, Clone, Copy, PartialEq, Eq, Structural)]
pub enum ResolveStatus {
    Pending,
    Resolving,
    UpToDate,
    UpdateAvailable,
    Unknown,
    Error,
}

/// `Version::parse(s)` of the `semver` crate succeeds.
pub uninterp spec fn semver_valid(s: Seq<char>) -> bool;

/// `Version::parse(b) > Version::parse(a)` by the `semver` crate's ordering.
pub uninterp spec fn semver_greater(a: Seq<char>, b: Seq<char>) -> bool;

/// `semver::Version::parse` of both strings and, when both parse, whether the second is
/// greater under the crate's `Ord` (a total order: it never holds both ways).
#[verifier::external_body]
fn semver_newer(a: &str, b: &str) -> (r: Option<bool>)
    ensures
        r == (if semver_valid(a@) && semver_valid(b@) {
            Some(semver_greater(a@, b@))
        } else {
            None
        }),
        r == Some(true) ==> !semver_greater(b@, a@),
{
    match (semver::Version::parse(a), semver::Version::parse(b)) {
        (Ok(x), Ok(y)) => Some(y > x),
        _ => None,
    }
}

/// The text before the first `+` (all of it when there is none).
pub open spec fn before_plus(s: Seq<char>) -> Seq<char> {
    split_on(s, '+')[0]
}

/// `remote` is a newer version than `local`: after trimming they differ, and either both
/// parse as semver with `remote` greater, or (when they do not both parse) their parts
/// before any `+` do, with `remote`'s greater.
pub open spec fn newer_version(local: Seq<char>, remote: Seq<char>) -> bool {
    let l = trim(local);
    let r = trim(remote);
    if l == r {
        false
    } else if semver_valid(l) && semver_valid(r) {
        semver_greater(l, r)
    } else if semver_valid(before_plus(l)) && semver_valid(before_plus(r)) {
        semver_greater(before_plus(l), before_plus(r))
    } else {
        false
    }
}

proof fn lemma_split_nonempty(s: Seq<char>, sep: char)
    ensures
        split_on(s, sep).len() >= 1,
    decreases s.len(),
{
    if s.len() > 0 {
        lemma_split_nonempty(s.drop_last(), sep);
    }
}

fn before_plus_string(v: &[char]) -> (r: String)
    ensures
        r@ == before_plus(v@),
{
    let parts = split_chars(v, '+');
    proof {
        lemma_split_nonempty(v@, '+');
    }
    string_of(parts[0].as_slice())
}

/// Whether `remote` is a newer version than `local` (see `newer_version`).
pub fn is_newer_version(local: &str, remote: &str) -> (r: bool)
    ensures
        r == newer_version(local@, remote@),
        r ==> !newer_version(remote@, local@),
{
    let lc = chars_of(local);
    let rc = chars_of(remote);
    let l = trim_chars(lc.as_slice());
    let r = trim_chars(rc.as_slice());
    if chars_eq(l.as_slice(), r.as_slice()) {
        return false;
    }
    let ls = string_of(l.as_slice());
    let rs = string_of(r.as_slice());
    match semver_newer(ls.as_str(), rs.as_str()) {
        Some(b) => b,
        None => {
            let lp = before_plus_string(l.as_slice());
            let rp = before_plus_string(r.as_slice());
            match semver_newer(lp.as_str(), rp.as_str()) {
                Some(b) => b,
                None => false,
            }
        },
    }
}

/// `h` contains `n` as a substring.
pub open spec fn contains_seq(h: Seq<char>, n: Seq<char>) -> bool {
    exists|i: int| occurs_at(h, n, i)
}

/// `str::contains` with a string pattern, on characters.
pub fn chars_contains_seq(h: &[char], n: &[char]) -> (r: bool)
    ensures
        r == contains_seq(h@, n@),
{
    if n.len() == 0 {
        assert(h@.subrange(0, 0) =~= n@);
        assert(occurs_at(h@, n@, 0));
        return true;
    }
    let mut i: usize = 0;
    while i < h.len()
        invariant
            0 < n@.len(),
            i <= h@.len(),
            h.len() == h@.len(),
            forall|j: int| 0 <= j < i ==> !occurs_at(h@, n@, j),
        decreases h@.len() - i,
    {
        if n.len() <= h.len() - i && occurs_at_exec(h, n, i) {
            return true;
        }
        i = i + 1;
    }
    assert forall|j: int| !occurs_at(h@, n@, j) by {}
    false
}

/// A file name that is the mod jar itself (not sources, javadoc or a dev build),
/// compared in ASCII lowercase.
pub open spec fn is_mod_jar_name(name: Seq<char>) -> bool {
    let n = ascii_lower(name);
    &&& ends_with(n, ".jar"@)
    &&& !contains_seq(n, "sources"@)
    &&& !contains_seq(n, "javadoc"@)
    &&& !contains_seq(n, "-dev."@)
}

pub fn mod_jar_name(name: &str) -> (r: bool)
    ensures
        r == is_mod_jar_name(name@),
{
    let c = chars_of(name);
    let n = lower_chars(c.as_slice());
    let jar = chars_of(".jar");
    let sources = chars_of("sources");
    let javadoc = chars_of("javadoc");
    let dev = chars_of("-dev.");
    chars_ends_with(n.as_slice(), jar.as_slice()) && !chars_contains_seq(
        n.as_slice(),
        sources.as_slice(),
    ) && !chars_contains_seq(n.as_slice(), javadoc.as_slice()) && !chars_contains_seq(
        n.as_slice(),
        dev.as_slice(),
    )
}

/// Some string of `have` equals `want`, ignoring ASCII case.
pub open spec fn lists_ignore_case(have: Seq<Seq<char>>, want: Seq<char>) -> bool {
    exists|k: int| 0 <= k < have.len() && eq_ignore_case(#[trigger] have[k], want)
}

/// Some string of `wants` is listed in `have`, ignoring ASCII case.
pub open spec fn any_shared(have: Seq<Seq<char>>, wants: Seq<Seq<char>>) -> bool {
    exists|j: int| 0 <= j < wants.len() && lists_ignore_case(have, #[trigger] wants[j])
}

/// A list of loaders accepts the wanted ones when it is empty or shares one of them.
pub open spec fn loaders_match(listed: Seq<Seq<char>>, wants: Seq<Seq<char>>) -> bool {
    listed.len() == 0 || any_shared(listed, wants)
}

fn list_has_ignore_case(have: &[String], want: &str) -> (r: bool)
    ensures
        r == lists_ignore_case(strings_view(have@), want@),
{
    let w = chars_of(want);
    let mut k: usize = 0;
    while k < have.len()
        invariant
            k <= have@.len(),
            w@ == want@,
            forall|j: int| 0 <= j < k ==> !eq_ignore_case(#[trigger] strings_view(have@)[j], want@),
        decreases have@.len() - k,
    {
        let h = chars_of(have[k].as_str());
        if chars_eq_ignore_case(h.as_slice(), w.as_slice()) {
            assert(eq_ignore_case(strings_view(have@)[k as int], want@));
            return true;
        }
        k = k + 1;
    }
    false
}

fn lists_share_ignore_case(have: &[String], wants: &[String]) -> (r: bool)
    ensures
        r == any_shared(strings_view(have@), strings_view(wants@)),
{
    let mut j: usize = 0;
    while j < wants.len()
        invariant
            j <= wants@.len(),
            forall|i: int|
                0 <= i < j ==> !lists_ignore_case(
                    strings_view(have@),
                    #[trigger] strings_view(wants@)[i],
                ),
        decreases wants@.len() - j,
    {
        if list_has_ignore_case(have, wants[j].as_str()) {
            assert(lists_ignore_case(strings_view(have@), strings_view(wants@)[j as int]));
            return true;
        }
        j = j + 1;
    }
    false
}

/// Some string of `have`, trimmed, equals `want` trimmed, ignoring ASCII case.
pub open spec fn lists_trimmed_ignore_case(have: Seq<Seq<char>>, want: Seq<char>) -> bool {
    exists|k: int| 0 <= k < have.len() && eq_ignore_case(trim(#[trigger] have[k]), trim(want))
}

fn lists_trimmed(have: &[String], want: &str) -> (r: bool)
    ensures
        r == lists_trimmed_ignore_case(strings_view(have@), want@),
{
    let wc = chars_of(want);
    let w = trim_chars(wc.as_slice());
    let mut k: usize = 0;
    while k < have.len()
        invariant
            k <= have@.len(),
            w@ == trim(want@),
            forall|j: int|
                0 <= j < k ==> !eq_ignore_case(trim(#[trigger] strings_view(have@)[j]), trim(want@)),
        decreases have@.len() - k,
    {
        let g = chars_of(have[k].as_str());
        let gt = trim_chars(g.as_slice());
        if chars_eq_ignore_case(gt.as_slice(), w.as_slice()) {
            assert(eq_ignore_case(trim(strings_view(have@)[k as int]), trim(want@)));
            return true;
        }
        k = k + 1;
    }
    false
}

/// The version Modrinth answered with is for the requested Minecraft version (when it
/// lists any: some listed one equals it after trimming, ignoring ASCII case) and for one
/// of the requested loaders (when it lists any).
pub open spec fn response_matches(v: ModrinthVersionView, mc: Seq<char>, loaders: Seq<Seq<char>>) -> bool {
    &&& (v.game_versions.len() == 0 || lists_trimmed_ignore_case(v.game_versions, mc))
    &&& loaders_match(v.loaders, loaders)
}

pub fn modrinth_response_matches_request(ver: &ModrinthVersion, mc: &str, loaders: &[String]) -> (r:
    bool)
    ensures
        r == response_matches(ver@, mc@, strings_view(loaders@)),
{
    if ver.game_versions.len() > 0 && !lists_trimmed(ver.game_versions.as_slice(), mc) {
        return false;
    }
    if ver.loaders.len() > 0 && !lists_share_ignore_case(ver.loaders.as_slice(), loaders) {
        return false;
    }
    true
}

/// The file is for one of the wanted loaders (or lists none).
pub fn loader_matches_file(f: &ModrinthFile, loaders: &[String]) -> (r: bool)
    ensures
        r == loaders_match(f@.loaders, strings_view(loaders@)),
{
    if f.loaders.len() == 0 {
        return true;
    }
    lists_share_ignore_case(f.loaders.as_slice(), loaders)
}

/// The first index in `[i, n)` where `p` holds.
pub open spec fn first_from(p: spec_fn(int) -> bool, i: int, n: int) -> Option<int>
    decreases n - i,
{
    if i >= n {
        None
    } else if p(i) {
        Some(i)
    } else {
        first_from(p, i + 1, n)
    }
}

pub proof fn lemma_first_from_ext(p: spec_fn(int) -> bool, q: spec_fn(int) -> bool, i: int, n: int)
    requires
        forall|j: int| i <= j < n ==> #[trigger] p(j) == q(j),
    ensures
        first_from(p, i, n) == first_from(q, i, n),
    decreases n - i,
{
    if i < n {
        lemma_first_from_ext(p, q, i + 1, n);
    }
}

pub proof fn lemma_first_from(p: spec_fn(int) -> bool, i: int, n: int)
    ensures
        first_from(p, i, n) matches Some(k) ==> i <= k < n && p(k) && forall|j: int|
            i <= j < k ==> !#[trigger] p(j),
        first_from(p, i, n) is None ==> forall|j: int| i <= j < n ==> !#[trigger] p(j),
    decreases n - i,
{
    if i < n {
        lemma_first_from(p, i + 1, n);
    }
}

pub open spec fn flag_pred(flags: Seq<bool>) -> spec_fn(int) -> bool {
    |i: int| flags[i]
}

/// The first set flag.
fn first_set(flags: &[bool]) -> (r: Option<usize>)
    ensures
        (match r {
            Some(k) => Some(k as int),
            None => None,
        }) == first_from(flag_pred(flags@), 0, flags@.len() as int),
{
    let ghost n = flags@.len() as int;
    let mut i: usize = 0;
    while i < flags.len()
        invariant
            i <= n,
            n == flags@.len(),
            first_from(flag_pred(flags@), 0, n) == first_from(flag_pred(flags@), i as int, n),
        decreases n - i,
    {
        if flags[i] {
            return Some(i);
        }
        i = i + 1;
    }
    None
}

pub open spec fn jar_at(fs: Seq<ModrinthFileView>, i: int) -> bool {
    is_mod_jar_name(fs[i].filename)
}

pub open spec fn loader_at(fs: Seq<ModrinthFileView>, loaders: Seq<Seq<char>>, i: int) -> bool {
    jar_at(fs, i) && loaders_match(fs[i].loaders, loaders)
}

pub open spec fn loader_pred(fs: Seq<ModrinthFileView>, loaders: Seq<Seq<char>>) -> spec_fn(int) -> bool {
    |i: int| loader_at(fs, loaders, i)
}

/// The jars for one of the wanted loaders, or all jars when none is.
pub open spec fn matched_at(fs: Seq<ModrinthFileView>, loaders: Seq<Seq<char>>, i: int) -> bool {
    if first_from(loader_pred(fs, loaders), 0, fs.len() as int) is Some {
        loader_at(fs, loaders, i)
    } else {
        jar_at(fs, i)
    }
}

pub open spec fn mc_at(fs: Seq<ModrinthFileView>, loaders: Seq<Seq<char>>, mc: Seq<char>, i: int) -> bool {
    matched_at(fs, loaders, i) && declares_mc(fs[i].filename, mc)
}

pub open spec fn mc_pred(fs: Seq<ModrinthFileView>, loaders: Seq<Seq<char>>, mc: Seq<char>) -> spec_fn(int) -> bool {
    |i: int| mc_at(fs, loaders, mc, i)
}

/// The matched jars whose names mention the Minecraft version, or all matched jars when
/// none does.
pub open spec fn pool_at(fs: Seq<ModrinthFileView>, loaders: Seq<Seq<char>>, mc: Seq<char>, i: int) -> bool {
    if first_from(mc_pred(fs, loaders, mc), 0, fs.len() as int) is Some {
        mc_at(fs, loaders, mc, i)
    } else {
        matched_at(fs, loaders, i)
    }
}

pub open spec fn pool_pred(fs: Seq<ModrinthFileView>, loaders: Seq<Seq<char>>, mc: Seq<char>) -> spec_fn(int) -> bool {
    |i: int| pool_at(fs, loaders, mc, i)
}

pub open spec fn primary_pred(fs: Seq<ModrinthFileView>, loaders: Seq<Seq<char>>, mc: Seq<char>) -> spec_fn(int) -> bool {
    |i: int| pool_at(fs, loaders, mc, i) && fs[i].primary == Some(true)
}

/// The file to download from a version: the first primary file of the pool, else the
/// pool's first file.
pub open spec fn pick_index(fs: Seq<ModrinthFileView>, loaders: Seq<Seq<char>>, mc: Seq<char>) -> Option<int> {
    match first_from(primary_pred(fs, loaders, mc), 0, fs.len() as int) {
        Some(k) => Some(k),
        None => first_from(pool_pred(fs, loaders, mc), 0, fs.len() as int),
    }
}

pub proof fn lemma_pick_in_range(fs: Seq<ModrinthFileView>, loaders: Seq<Seq<char>>, mc: Seq<char>)
    ensures
        pick_index(fs, loaders, mc) matches Some(k) ==> 0 <= k < fs.len() && pool_at(fs, loaders, mc, k),
{
    lemma_first_from(primary_pred(fs, loaders, mc), 0, fs.len() as int);
    lemma_first_from(pool_pred(fs, loaders, mc), 0, fs.len() as int);
}

/// Choosing a file checks the Minecraft version against the name of every matched jar;
/// that check panics on some names.
pub open spec fn pick_panics(fs: Seq<ModrinthFileView>, loaders: Seq<Seq<char>>, mc: Seq<char>) -> bool {
    exists|i: int|
        0 <= i < fs.len() && #[trigger] matched_at(fs, loaders, i) && declares_mc_panics(
            fs[i].filename,
            mc,
        )
}

fn matched_flags(ver: &ModrinthVersion, loaders: &[String]) -> (r: Vec<bool>)
    ensures
        r@.len() == ver.files@.len(),
        forall|j: int|
            0 <= j < r@.len() ==> r@[j] == matched_at(
                files_view(ver.files@),
                strings_view(loaders@),
                j,
            ),
{
    let ghost fs = files_view(ver.files@);
    let ghost lv = strings_view(loaders@);
    let n = ver.files.len();
    let mut jar: Vec<bool> = Vec::new();
    let mut lm: Vec<bool> = Vec::new();
    let mut i: usize = 0;
    while i < n
        invariant
            n == ver.files@.len(),
            fs == files_view(ver.files@),
            lv == strings_view(loaders@),
            i <= n,
            jar@.len() == i,
            lm@.len() == i,
            forall|j: int| 0 <= j < i ==> jar@[j] == jar_at(fs, j),
            forall|j: int| 0 <= j < i ==> lm@[j] == loader_at(fs, lv, j),
        decreases n - i,
    {
        let f = &ver.files[i];
        let is_jar = mod_jar_name(f.filename.as_str());
        let lf = is_jar && loader_matches_file(f, loaders);
        jar.push(is_jar);
        lm.push(lf);
        i = i + 1;
    }
    let any_loader = first_set(lm.as_slice()).is_some();
    proof {
        lemma_first_from_ext(flag_pred(lm@), loader_pred(fs, lv), 0, n as int);
    }
    let mut matched: Vec<bool> = Vec::new();
    i = 0;
    while i < n
        invariant
            n == ver.files@.len(),
            fs == files_view(ver.files@),
            lv == strings_view(loaders@),
            i <= n,
            jar@.len() == n,
            lm@.len() == n,
            forall|j: int| 0 <= j < n ==> jar@[j] == jar_at(fs, j),
            forall|j: int| 0 <= j < n ==> lm@[j] == loader_at(fs, lv, j),
            any_loader == first_from(loader_pred(fs, lv), 0, n as int) is Some,
            matched@.len() == i,
            forall|j: int| 0 <= j < i ==> matched@[j] == matched_at(fs, lv, j),
        decreases n - i,
    {
        let m = if any_loader {
            lm[i]
        } else {
            jar[i]
        };
        matched.push(m);
        i = i + 1;
    }
    matched
}

/// Whether `pick_modrinth_file` would panic on these arguments (what its `requires`
/// leaves out).
pub fn pick_would_panic(ver: &ModrinthVersion, loaders: &[String], mc: &str) -> (r: bool)
    ensures
        r == pick_panics(files_view(ver.files@), strings_view(loaders@), mc@),
{
    let ghost fs = files_view(ver.files@);
    let ghost lv = strings_view(loaders@);
    let matched = matched_flags(ver, loaders);
    let mut i: usize = 0;
    while i < matched.len()
        invariant
            fs == files_view(ver.files@),
            lv == strings_view(loaders@),
            matched@.len() == ver.files@.len(),
            forall|j: int| 0 <= j < matched@.len() ==> matched@[j] == matched_at(fs, lv, j),
            i <= matched@.len(),
            forall|j: int|
                0 <= j < i ==> !(#[trigger] matched_at(fs, lv, j) && declares_mc_panics(
                    fs[j].filename,
                    mc@,
                )),
        decreases matched@.len() - i,
    {
        if matched[i] && filename_declares_mc_panics(ver.files[i].filename.as_str(), mc) {
            assert(matched_at(fs, lv, i as int) && declares_mc_panics(fs[i as int].filename, mc@));
            return true;
        }
        i = i + 1;
    }
    false
}

/// The file of `ver` to install for these loaders and Minecraft version.
pub fn pick_modrinth_file<'a>(ver: &'a ModrinthVersion, loaders: &[String], mc: &str) -> (r: Option<
    &'a ModrinthFile,
>)
    requires
        !pick_panics(files_view(ver.files@), strings_view(loaders@), mc@),
    ensures
        r == (match pick_index(files_view(ver.files@), strings_view(loaders@), mc@) {
            Some(k) => Some(&ver.files@[k]),
            None => None,
        }),
{
    let ghost fs = files_view(ver.files@);
    let ghost lv = strings_view(loaders@);
    let n = ver.files.len();
    let matched = matched_flags(ver, loaders);
    let mut with_mc: Vec<bool> = Vec::new();
    let mut i: usize = 0;
    while i < n
        invariant
            n == ver.files@.len(),
            fs == files_view(ver.files@),
            lv == strings_view(loaders@),
            !pick_panics(fs, lv, mc@),
            i <= n,
            matched@.len() == n,
            forall|j: int| 0 <= j < n ==> matched@[j] == matched_at(fs, lv, j),
            with_mc@.len() == i,
            forall|j: int| 0 <= j < i ==> with_mc@[j] == mc_at(fs, lv, mc@, j),
        decreases n - i,
    {
        let d = if matched[i] {
            assert(!declares_mc_panics(fs[i as int].filename, mc@));
            filename_declares_mc(ver.files[i].filename.as_str(), mc)
        } else {
            false
        };
        with_mc.push(d);
        i = i + 1;
    }
    let any_mc = first_set(with_mc.as_slice()).is_some();
    proof {
        lemma_first_from_ext(flag_pred(with_mc@), mc_pred(fs, lv, mc@), 0, n as int);
    }
    let mut pool: Vec<bool> = Vec::new();
    let mut prim: Vec<bool> = Vec::new();
    i = 0;
    while i < n
        invariant
            n == ver.files@.len(),
            fs == files_view(ver.files@),
            lv == strings_view(loaders@),
            i <= n,
            matched@.len() == n,
            with_mc@.len() == n,
            forall|j: int| 0 <= j < n ==> matched@[j] == matched_at(fs, lv, j),
            forall|j: int| 0 <= j < n ==> with_mc@[j] == mc_at(fs, lv, mc@, j),
            any_mc == first_from(mc_pred(fs, lv, mc@), 0, n as int) is Some,
            pool@.len() == i,
            prim@.len() == i,
            forall|j: int| 0 <= j < i ==> pool@[j] == pool_at(fs, lv, mc@, j),
            forall|j: int|
                0 <= j < i ==> prim@[j] == (pool_at(fs, lv, mc@, j) && fs[j].primary == Some(
                    true,
                )),
        decreases n - i,
    {
        let p = if any_mc {
            with_mc[i]
        } else {
            matched[i]
        };
        let is_primary = match ver.files[i].primary {
            Some(b) => b,
            None => false,
        };
        pool.push(p);
        prim.push(p && is_primary);
        i = i + 1;
    }
    proof {
        lemma_first_from_ext(flag_pred(prim@), primary_pred(fs, lv, mc@), 0, n as int);
        lemma_first_from_ext(flag_pred(pool@), pool_pred(fs, lv, mc@), 0, n as int);
        lemma_first_from(flag_pred(prim@), 0, n as int);
        lemma_first_from(flag_pred(pool@), 0, n as int);
    }
    match first_set(prim.as_slice()) {
        Some(k) => Some(&ver.files[k]),
        None => match first_set(pool.as_slice()) {
            Some(k) => Some(&ver.files[k]),
            None => None,
        },
    }
}

/// The version a CurseForge file name suggests: after dropping a `.jar` suffix, the last
/// `-`-separated part, when there are at least two parts and it starts with a digit.
pub open spec fn guessed_version(name: Seq<char>) -> Option<Seq<char>> {
    let base = if ends_with(name, ".jar"@) {
        name.subrange(0, name.len() - 4)
    } else {
        name
    };
    let parts = split_on(base, '-');
    let last = parts[parts.len() - 1];
    if parts.len() >= 2 && last.len() > 0 && is_ascii_digit(last[0]) {
        Some(last)
    } else {
        None
    }
}

pub fn guess_version_from_filename(name: &str) -> (r: Option<String>)
    ensures
        (match r {
            Some(s) => Some(s@),
            None => None,
        }) == guessed_version(name@),
{
    let c = chars_of(name);
    let jar = chars_of(".jar");
    proof {
        reveal_strlit(".jar");
    }
    let base = if chars_ends_with(c.as_slice(), jar.as_slice()) {
        slice_chars(c.as_slice(), 0, c.len() - 4)
    } else {
        slice_chars(c.as_slice(), 0, c.len())
    };
    proof {
        assert(c@.subrange(0, c@.len() as int) == c@);
    }
    let parts = split_chars(base.as_slice(), '-');
    proof {
        lemma_split_nonempty(base@, '-');
    }
    if parts.len() >= 2 {
        let last = &parts[parts.len() - 1];
        if last.len() > 0 && '0' <= last[0] && last[0] <= '9' {
            return Some(string_of(last.as_slice()));
        }
    }
    None
}


/// One row of the update table: a scanned jar and what the hosts say about it.
#[derive(Debug, Clone)]
pub struct ResolvedMod {
    pub scan: ScannedMod,
    pub display_name: String,
    pub local_version: String,
    pub remote_version: Option<String>,
    pub source: Option<RemoteSource>,
    pub status: ResolveStatus,
    pub download_url: Option<String>,
    pub download_filename: Option<String>,
    pub detail: Option<String>,
    pub project_label: Option<String>,
    pub remote_file_sha512: Option<String>,
    pub identity_match: Option<bool>,
}

pub struct ResolvedModView {
    pub scan: ScannedModView,
    pub display_name: Seq<char>,
    pub local_version: Seq<char>,
    pub remote_version: Option<Seq<char>>,
    pub source: Option<RemoteSource>,
    pub status: ResolveStatus,
    pub download_url: Option<Seq<char>>,
    pub download_filename: Option<Seq<char>>,
    pub detail: Option<Seq<char>>,
    pub project_label: Option<Seq<char>>,
    pub remote_file_sha512: Option<Seq<char>>,
    pub identity_match: Option<bool>,
}

impl View for ResolvedMod {
    type V = ResolvedModView;

    open spec fn view(&self) -> ResolvedModView {
        ResolvedModView {
            scan: self.scan@,
            display_name: self.display_name@,
            local_version: self.local_version@,
            remote_version: opt_view(self.remote_version),
            source: self.source,
            status: self.status,
            download_url: opt_view(self.download_url),
            download_filename: opt_view(self.download_filename),
            detail: opt_view(self.detail),
            project_label: opt_view(self.project_label),
            remote_file_sha512: opt_view(self.remote_file_sha512),
            identity_match: self.identity_match,
        }
    }
}

/// What resolving one jar works from.
pub struct ResolveContext {
    pub scan: ScannedMod,
    /// The declared name, else the file name.
    pub display_name: String,
    /// The declared version, else `?`.
    pub local_version: String,
    /// The normalized loaders to ask for.
    pub loaders: Vec<String>,
    pub minecraft_version: String,
    /// The CurseForge loader of the first loader, when it has one.
    pub cf_loader: Option<CfModLoader>,
    /// A CurseForge API key is configured.
    pub curseforge: bool,
}

pub open spec fn display_name_of(scan: ScannedModView) -> Seq<char> {
    match scan.metadata {
        Some(m) => m.display_name,
        None => scan.file_name,
    }
}

pub open spec fn local_version_of(scan: ScannedModView) -> Seq<char> {
    match scan.metadata {
        Some(m) => m.version,
        None => "?"@,
    }
}

pub open spec fn first_loader(loaders: Seq<Seq<char>>) -> Option<CfModLoader> {
    if loaders.len() > 0 {
        loader_named(loaders[0])
    } else {
        None
    }
}

impl ResolveContext {
    pub open spec fn wf(&self) -> bool {
        &&& self.display_name@ == display_name_of(self.scan@)
        &&& self.local_version@ == local_version_of(self.scan@)
        &&& self.cf_loader == first_loader(strings_view(self.loaders@))
    }

    pub fn new(scan: ScannedMod, loaders: Vec<String>, minecraft_version: String, curseforge: bool) -> (r:
        Self)
        ensures
            r.wf(),
            r.scan == scan,
            r.loaders == loaders,
            r.minecraft_version == minecraft_version,
            r.curseforge == curseforge,
    {
        let (display_name, local_version) = match &scan.metadata {
            Some(m) => (m.display_name.clone(), m.version.clone()),
            None => (scan.file_name.clone(), String::from_str("?")),
        };
        let cf_loader = if loaders.len() > 0 {
            CfModLoader::from_loader_str(loaders[0].as_str())
        } else {
            None
        };
        ResolveContext {
            scan,
            display_name,
            local_version,
            loaders,
            minecraft_version,
            cf_loader,
            curseforge,
        }
    }
}

/// A row with nothing found remotely.
pub open spec fn bare_row(c: ResolveContext, status: ResolveStatus, source: Option<RemoteSource>, detail: Seq<char>) -> ResolvedModView {
    ResolvedModView {
        scan: c.scan@,
        display_name: c.display_name@,
        local_version: c.local_version@,
        remote_version: None,
        source,
        status,
        download_url: None,
        download_filename: None,
        detail: Some(detail),
        project_label: None,
        remote_file_sha512: None,
        identity_match: None,
    }
}

fn bare(c: ResolveContext, status: ResolveStatus, source: Option<RemoteSource>, detail: String) -> (r:
    ResolvedMod)
    ensures
        r@ == bare_row(c, status, source, detail@),
{
    ResolvedMod {
        scan: c.scan,
        display_name: c.display_name,
        local_version: c.local_version,
        remote_version: None,
        source,
        status,
        download_url: None,
        download_filename: None,
        detail: Some(detail),
        project_label: None,
        remote_file_sha512: None,
        identity_match: None,
    }
}

/// A row for a jar that could not be resolved: status `Error` with the message.
pub fn error_row(c: ResolveContext, msg: String) -> (r: ResolvedMod)
    ensures
        r@ == bare_row(c, ResolveStatus::Error, None, msg@),
{
    bare(c, ResolveStatus::Error, None, msg)
}

pub open spec fn not_found_msg() -> Seq<char> {
    "Not on Modrinth; CurseForge key missing or no match"@
}

pub open spec fn no_cf_file_msg() -> Seq<char> {
    "No file for target MC/loader on CurseForge"@
}

pub open spec fn no_jar_msg() -> Seq<char> {
    "Modrinth: no matching .jar for loader/MC in this version"@
}

pub open spec fn missing_sha512_msg() -> Seq<char> {
    "Modrinth: selected file is missing sha512 in API response"@
}

pub open spec fn via_sha1_msg() -> Seq<char> {
    "matched via search + sha1"@
}

pub open spec fn via_search_msg() -> Seq<char> {
    "matched via search; no exact hash identity"@
}

pub open spec fn fingerprint_msg(e: Seq<char>) -> Seq<char> {
    "fingerprint: "@ + e
}

pub open spec fn mc_not_named_msg(mc: Seq<char>) -> Seq<char> {
    "CurseForge jar name does not mention MC "@ + mc + "; double-check before playing"@
}

/// `{title} ({slug})`.
pub open spec fn label(title: Seq<char>, slug: Seq<char>) -> Seq<char> {
    title + " ("@ + slug + ")"@
}

fn make_label(title: &str, slug: &str) -> (r: String)
    ensures
        r@ == label(title@, slug@),
{
    let mut out: Vec<char> = Vec::new();
    append_str(&mut out, title);
    append_str(&mut out, " (");
    append_str(&mut out, slug);
    append_str(&mut out, ")");
    string_of(out.as_slice())
}

/// The row for a jar Modrinth knows by its hash: the chosen file is the update; the jar
/// is up to date when the file's SHA-512 equals its own (ignoring ASCII case).
pub open spec fn modrinth_row(c: ResolveContext, v: ModrinthVersionView, project: Option<ModrinthProjectView>) -> ResolvedModView {
    let chosen = pick_index(v.files, strings_view(c.loaders@), c.minecraft_version@);
    let f = v.files[chosen->0];
    let sha = if chosen is Some { f.sha512 } else { None };
    let identity = match sha {
        Some(h) => Some(eq_ignore_case(h, c.scan@.sha512_hex)),
        None => None,
    };
    ResolvedModView {
        scan: c.scan@,
        display_name: c.display_name@,
        local_version: c.local_version@,
        remote_version: Some(v.version_number),
        source: Some(RemoteSource::Modrinth),
        status: if chosen is None {
            ResolveStatus::Unknown
        } else if identity == Some(true) {
            ResolveStatus::UpToDate
        } else if identity == Some(false) {
            ResolveStatus::UpdateAvailable
        } else {
            ResolveStatus::Unknown
        },
        download_url: if chosen is Some { Some(f.url) } else { None },
        download_filename: if chosen is Some { Some(f.filename) } else { None },
        detail: if chosen is None {
            Some(no_jar_msg())
        } else if identity is Some {
            None
        } else {
            Some(missing_sha512_msg())
        },
        project_label: match project {
            Some(p) => Some(label(p.title, p.slug)),
            None => None,
        },
        remote_file_sha512: sha,
        identity_match: identity,
    }
}

pub open spec fn project_view(p: Option<ModrinthProject>) -> Option<ModrinthProjectView> {
    match p {
        Some(x) => Some(x@),
        None => None,
    }
}

fn modrinth_result(c: ResolveContext, ver: &ModrinthVersion, project: Option<ModrinthProject>) -> (r:
    ResolvedMod)
    requires
        !pick_panics(files_view(ver.files@), strings_view(c.loaders@), c.minecraft_version@),
    ensures
        r@ == modrinth_row(c, ver@, project_view(project)),
{
    let chosen = pick_modrinth_file(ver, c.loaders.as_slice(), c.minecraft_version.as_str());
    let project_label = match &project {
        Some(p) => Some(make_label(p.title.as_str(), p.slug.as_str())),
        None => None,
    };
    let (download_url, download_filename, remote_file_sha512) = match chosen {
        Some(f) => {
            let sha = match &f.hashes.sha512 {
                Some(h) => Some(h.clone()),
                None => None,
            };
            (Some(f.url.clone()), Some(f.filename.clone()), sha)
        },
        None => (None, None, None),
    };
    proof {
        let k = pick_index(files_view(ver.files@), strings_view(c.loaders@), c.minecraft_version@);
        lemma_pick_in_range(files_view(ver.files@), strings_view(c.loaders@), c.minecraft_version@);
        if k is Some {
            assert(files_view(ver.files@)[k->0] == ver.files@[k->0]@);
        }
    }
    let identity_match = match &remote_file_sha512 {
        Some(h) => {
            let a = chars_of(h.as_str());
            let b = chars_of(c.scan.sha512_hex.as_str());
            Some(chars_eq_ignore_case(a.as_slice(), b.as_slice()))
        },
        None => None,
    };
    let (status, detail) = if chosen.is_none() {
        (ResolveStatus::Unknown, Some(String::from_str("Modrinth: no matching .jar for loader/MC in this version")))
    } else if identity_match == Some(true) {
        (ResolveStatus::UpToDate, None)
    } else if identity_match == Some(false) {
        (ResolveStatus::UpdateAvailable, None)
    } else {
        (ResolveStatus::Unknown, Some(String::from_str("Modrinth: selected file is missing sha512 in API response")))
    };
    ResolvedMod {
        scan: c.scan,
        display_name: c.display_name,
        local_version: c.local_version,
        remote_version: Some(ver.version_number.clone()),
        source: Some(RemoteSource::Modrinth),
        status,
        download_url,
        download_filename,
        detail,
        project_label,
        remote_file_sha512,
        identity_match,
    }
}


/// The version a CurseForge file name suggests, else the name itself.
pub open spec fn remote_version_of(name: Seq<char>) -> Seq<char> {
    match guessed_version(name) {
        Some(v) => v,
        None => name,
    }
}

fn remote_version_string(name: &String) -> (r: String)
    ensures
        r@ == remote_version_of(name@),
{
    match guess_version_from_filename(name.as_str()) {
        Some(v) => v,
        None => name.clone(),
    }
}

/// The row for a jar CurseForge knows by its fingerprint, with the newest file for the
/// target: up to date when that file is the jar's own file.
pub open spec fn cf_match_row(c: ResolveContext, m: FingerprintMatchView, lf: CfFileSummaryView, title: Option<Seq<char>>) -> ResolvedModView {
    let same = lf.file_id == m.file_id;
    ResolvedModView {
        scan: c.scan@,
        display_name: c.display_name@,
        local_version: c.local_version@,
        remote_version: Some(remote_version_of(lf.file_name)),
        source: Some(RemoteSource::CurseForge),
        status: if same {
            ResolveStatus::UpToDate
        } else {
            ResolveStatus::UpdateAvailable
        },
        download_url: lf.download_url,
        download_filename: Some(lf.file_name),
        detail: if !declares_mc(lf.file_name, c.minecraft_version@) {
            Some(mc_not_named_msg(c.minecraft_version@))
        } else {
            None
        },
        project_label: title,
        remote_file_sha512: None,
        identity_match: Some(same),
    }
}

fn clone_opt(o: &Option<String>) -> (r: Option<String>)
    ensures
        opt_view(r) == opt_view(*o),
{
    match o {
        Some(s) => Some(s.clone()),
        None => None,
    }
}

fn cf_match_result(c: ResolveContext, m: &FingerprintMatch, lf: &CfFileSummary, title: Option<String>) -> (r:
    ResolvedMod)
    requires
        !declares_mc_panics(lf.file_name@, c.minecraft_version@),
    ensures
        r@ == cf_match_row(c, m@, lf@, opt_view(title)),
{
    let same = lf.file_id == m.file_id;
    let detail = if !filename_declares_mc(lf.file_name.as_str(), c.minecraft_version.as_str()) {
        let mut out: Vec<char> = Vec::new();
        append_str(&mut out, "CurseForge jar name does not mention MC ");
        append_str(&mut out, c.minecraft_version.as_str());
        append_str(&mut out, "; double-check before playing");
        Some(string_of(out.as_slice()))
    } else {
        None
    };
    ResolvedMod {
        scan: c.scan,
        display_name: c.display_name,
        local_version: c.local_version,
        remote_version: Some(remote_version_string(&lf.file_name)),
        source: Some(RemoteSource::CurseForge),
        status: if same {
            ResolveStatus::UpToDate
        } else {
            ResolveStatus::UpdateAvailable
        },
        download_url: clone_opt(&lf.download_url),
        download_filename: Some(lf.file_name.clone()),
        detail,
        project_label: title,
        remote_file_sha512: None,
        identity_match: Some(same),
    }
}

/// Whether a jar is the file CurseForge lists, by SHA-1 (ignoring ASCII case); unknown
/// when either hash is missing.
pub open spec fn sha1_identity(remote: Option<Seq<char>>, local: Option<Seq<char>>) -> Option<bool> {
    match (remote, local) {
        (Some(a), Some(b)) => Some(eq_ignore_case(a, b)),
        _ => None,
    }
}

pub fn sha1_identity_match(remote: &Option<String>, local: &Option<String>) -> (r: Option<bool>)
    ensures
        r == sha1_identity(opt_view(*remote), opt_view(*local)),
{
    match (remote, local) {
        (Some(a), Some(b)) => {
            let x = chars_of(a.as_str());
            let y = chars_of(b.as_str());
            Some(chars_eq_ignore_case(x.as_slice(), y.as_slice()))
        },
        _ => None,
    }
}

/// The row for a jar found by a CurseForge name search, with the newest file for the
/// target and what its SHA-1 says.
pub open spec fn cf_search_row(c: ResolveContext, h: CfModSearchHitView, lf: CfFileSummaryView, identity: Option<bool>) -> ResolvedModView {
    ResolvedModView {
        scan: c.scan@,
        display_name: c.display_name@,
        local_version: c.local_version@,
        remote_version: Some(remote_version_of(lf.file_name)),
        source: Some(RemoteSource::CurseForge),
        status: match identity {
            Some(true) => ResolveStatus::UpToDate,
            Some(false) => ResolveStatus::UpdateAvailable,
            None => ResolveStatus::Unknown,
        },
        download_url: lf.download_url,
        download_filename: Some(lf.file_name),
        detail: if identity is Some {
            Some(via_sha1_msg())
        } else {
            Some(via_search_msg())
        },
        project_label: Some(label(h.name, h.slug)),
        remote_file_sha512: None,
        identity_match: identity,
    }
}

fn cf_search_result(c: ResolveContext, h: &CfModSearchHit, lf: &CfFileSummary, identity: Option<bool>) -> (r:
    ResolvedMod)
    ensures
        r@ == cf_search_row(c, h@, lf@, identity),
{
    let (status, detail) = match identity {
        Some(true) => (ResolveStatus::UpToDate, String::from_str("matched via search + sha1")),
        Some(false) => (ResolveStatus::UpdateAvailable, String::from_str("matched via search + sha1")),
        None => (ResolveStatus::Unknown, String::from_str("matched via search; no exact hash identity")),
    };
    ResolvedMod {
        scan: c.scan,
        display_name: c.display_name,
        local_version: c.local_version,
        remote_version: Some(remote_version_string(&lf.file_name)),
        source: Some(RemoteSource::CurseForge),
        status,
        download_url: clone_opt(&lf.download_url),
        download_filename: Some(lf.file_name.clone()),
        detail: Some(detail),
        project_label: Some(make_label(h.name.as_str(), h.slug.as_str())),
        remote_file_sha512: None,
        identity_match: identity,
    }
}

/// Where the resolution of one jar stands: which reply it waits for.
pub enum ResolveStage {
    /// Waiting for Modrinth's latest version for the jar's SHA-512.
    ModrinthLookup,
    /// Waiting for the project of a matching Modrinth version.
    ModrinthProject { version: ModrinthVersion },
    /// Waiting for the jar's CurseForge fingerprint.
    Fingerprint,
    /// Waiting for CurseForge's fingerprint matches.
    FingerprintLookup,
    /// Waiting for the newest file of the matched mod.
    MatchLatest { matched: FingerprintMatch },
    /// Waiting for the matched mod's name.
    MatchTitle { matched: FingerprintMatch, latest: CfFileSummary },
    /// Waiting for a CurseForge search by the jar's display name.
    Search,
    /// Waiting for the newest file of the first search hit.
    SearchLatest { hit: CfModSearchHit },
    /// Waiting for the jar's own SHA-1.
    SearchSha1 { hit: CfModSearchHit, latest: CfFileSummary },
}

/// A reply to a `ResolveAction` (errors as their messages).
pub enum ResolveEvent {
    ModrinthVersion(Result<Option<ModrinthVersion>, String>),
    ModrinthProject(Result<ModrinthProject, String>),
    Fingerprint(Result<u32, String>),
    FingerprintMatches(Result<Vec<FingerprintMatch>, String>),
    LatestFile(Result<Option<CfFileSummary>, String>),
    ModTitle(Result<String, String>),
    SearchHits(Result<Vec<CfModSearchHit>, String>),
    LocalSha1(Result<String, String>),
}

/// The outside work a resolution asks for next.
pub enum ResolveAction {
    /// Modrinth's `version_file/{hash}/update`.
    LookupModrinthVersion { sha512_hex: String, loaders: Vec<String>, game_versions: Vec<String> },
    /// Modrinth's `project/{id}`.
    FetchModrinthProject { project_id: String },
    /// The CurseForge fingerprint of the jar at the scan's path.
    FingerprintJar,
    /// CurseForge's fingerprint lookup.
    LookupFingerprints { fingerprints: Vec<u32> },
    /// The newest CurseForge file of a mod for a Minecraft version and loader.
    LatestFile { mod_id: i32, minecraft_version: String, loader: Option<CfModLoader> },
    /// The name of a CurseForge mod.
    FetchModTitle { mod_id: i32 },
    /// A CurseForge search.
    SearchMods { query: String, page_size: u32 },
    /// The SHA-1 of the jar at the scan's path.
    HashLocalSha1,
}

pub enum ResolveActionView {
    LookupModrinthVersion { sha512_hex: Seq<char>, loaders: Seq<Seq<char>>, game_versions: Seq<Seq<char>> },
    FetchModrinthProject { project_id: Seq<char> },
    FingerprintJar,
    LookupFingerprints { fingerprints: Seq<u32> },
    LatestFile { mod_id: i32, minecraft_version: Seq<char>, loader: Option<CfModLoader> },
    FetchModTitle { mod_id: i32 },
    SearchMods { query: Seq<char>, page_size: u32 },
    HashLocalSha1,
}

impl View for ResolveAction {
    type V = ResolveActionView;

    open spec fn view(&self) -> ResolveActionView {
        match self {
            ResolveAction::LookupModrinthVersion { sha512_hex, loaders, game_versions } => ResolveActionView::LookupModrinthVersion {
                sha512_hex: sha512_hex@,
                loaders: strings_view(loaders@),
                game_versions: strings_view(game_versions@),
            },
            ResolveAction::FetchModrinthProject { project_id } => ResolveActionView::FetchModrinthProject {
                project_id: project_id@,
            },
            ResolveAction::FingerprintJar => ResolveActionView::FingerprintJar,
            ResolveAction::LookupFingerprints { fingerprints } => ResolveActionView::LookupFingerprints {
                fingerprints: fingerprints@,
            },
            ResolveAction::LatestFile { mod_id, minecraft_version, loader } => ResolveActionView::LatestFile {
                mod_id: *mod_id,
                minecraft_version: minecraft_version@,
                loader: *loader,
            },
            ResolveAction::FetchModTitle { mod_id } => ResolveActionView::FetchModTitle { mod_id: *mod_id },
            ResolveAction::SearchMods { query, page_size } => ResolveActionView::SearchMods {
                query: query@,
                page_size: *page_size,
            },
            ResolveAction::HashLocalSha1 => ResolveActionView::HashLocalSha1,
        }
    }
}

/// A jar being resolved.
pub struct Resolver {
    pub ctx: ResolveContext,
    pub stage: ResolveStage,
}

/// After a reply: wait for the next one, or the finished row.
pub enum ResolveNext {
    Await(Resolver, ResolveAction),
    Done(ResolvedMod),
}

pub enum Outcome {
    Await(ResolveStage, ResolveActionView),
    Done(ResolvedModView),
}

pub open spec fn outcome_of(n: ResolveNext) -> Outcome {
    match n {
        ResolveNext::Await(r, a) => Outcome::Await(r.stage, a@),
        ResolveNext::Done(row) => Outcome::Done(row@),
    }
}

pub open spec fn keeps_ctx(n: ResolveNext, c: ResolveContext) -> bool {
    match n {
        ResolveNext::Await(r, _) => r.ctx == c,
        ResolveNext::Done(_) => true,
    }
}

/// The reply matches what the stage waits for.
pub open spec fn fits(st: ResolveStage, ev: ResolveEvent) -> bool {
    match st {
        ResolveStage::ModrinthLookup => ev is ModrinthVersion,
        ResolveStage::ModrinthProject { .. } => ev is ModrinthProject,
        ResolveStage::Fingerprint => ev is Fingerprint,
        ResolveStage::FingerprintLookup => ev is FingerprintMatches,
        ResolveStage::MatchLatest { .. } => ev is LatestFile,
        ResolveStage::MatchTitle { .. } => ev is ModTitle,
        ResolveStage::Search => ev is SearchHits,
        ResolveStage::SearchLatest { .. } => ev is LatestFile,
        ResolveStage::SearchSha1 { .. } => ev is LocalSha1,
    }
}

/// Replies on which the step checks a file name that makes the version check panic.
pub open spec fn advance_panics(c: ResolveContext, st: ResolveStage, ev: ResolveEvent) -> bool {
    match st {
        ResolveStage::ModrinthProject { version } => pick_panics(
            files_view(version.files@),
            strings_view(c.loaders@),
            c.minecraft_version@,
        ),
        ResolveStage::MatchTitle { latest, .. } => declares_mc_panics(
            latest.file_name@,
            c.minecraft_version@,
        ),
        _ => false,
    }
}

/// Modrinth had nothing usable: try CurseForge when a key is configured.
pub open spec fn after_modrinth(c: ResolveContext) -> Outcome {
    if c.curseforge {
        Outcome::Await(ResolveStage::Fingerprint, ResolveActionView::FingerprintJar)
    } else {
        Outcome::Done(bare_row(c, ResolveStatus::Unknown, None, not_found_msg()))
    }
}

pub open spec fn search_start(c: ResolveContext) -> Outcome {
    Outcome::Await(
        ResolveStage::Search,
        ResolveActionView::SearchMods { query: c.display_name@, page_size: 5 },
    )
}

pub open spec fn not_found(c: ResolveContext) -> Outcome {
    Outcome::Done(bare_row(c, ResolveStatus::Unknown, None, not_found_msg()))
}

pub open spec fn latest_action(c: ResolveContext, mod_id: i32) -> ResolveActionView {
    ResolveActionView::LatestFile {
        mod_id,
        minecraft_version: c.minecraft_version@,
        loader: c.cf_loader,
    }
}

/// One step of resolving a jar: Modrinth by hash first; then, with a CurseForge key,
/// CurseForge by fingerprint, and failing that by a search on the display name.
pub open spec fn advance_spec(c: ResolveContext, st: ResolveStage, ev: ResolveEvent) -> Outcome {
    match st {
        ResolveStage::ModrinthLookup => match ev {
            ResolveEvent::ModrinthVersion(Ok(Some(v))) => if response_matches(
                v@,
                c.minecraft_version@,
                strings_view(c.loaders@),
            ) {
                Outcome::Await(
                    ResolveStage::ModrinthProject { version: v },
                    ResolveActionView::FetchModrinthProject { project_id: v.project_id@ },
                )
            } else {
                after_modrinth(c)
            },
            _ => after_modrinth(c),
        },
        ResolveStage::ModrinthProject { version } => match ev {
            ResolveEvent::ModrinthProject(Ok(p)) => Outcome::Done(modrinth_row(c, version@, Some(p@))),
            _ => Outcome::Done(modrinth_row(c, version@, None)),
        },
        ResolveStage::Fingerprint => match ev {
            ResolveEvent::Fingerprint(Ok(fp)) => Outcome::Await(
                ResolveStage::FingerprintLookup,
                ResolveActionView::LookupFingerprints { fingerprints: seq![fp] },
            ),
            ResolveEvent::Fingerprint(Err(e)) => Outcome::Done(
                bare_row(c, ResolveStatus::Error, None, fingerprint_msg(e@)),
            ),
            _ => not_found(c),
        },
        ResolveStage::FingerprintLookup => match ev {
            ResolveEvent::FingerprintMatches(Ok(ms)) => if ms@.len() > 0 {
                Outcome::Await(
                    ResolveStage::MatchLatest { matched: ms@[0] },
                    latest_action(c, ms@[0].mod_id),
                )
            } else {
                search_start(c)
            },
            _ => search_start(c),
        },
        ResolveStage::MatchLatest { matched } => match ev {
            ResolveEvent::LatestFile(Ok(Some(lf))) => Outcome::Await(
                ResolveStage::MatchTitle { matched, latest: lf },
                ResolveActionView::FetchModTitle { mod_id: matched.mod_id },
            ),
            _ => Outcome::Done(
                bare_row(c, ResolveStatus::Unknown, Some(RemoteSource::CurseForge), no_cf_file_msg()),
            ),
        },
        ResolveStage::MatchTitle { matched, latest } => match ev {
            ResolveEvent::ModTitle(Ok(t)) => Outcome::Done(cf_match_row(c, matched@, latest@, Some(t@))),
            _ => Outcome::Done(cf_match_row(c, matched@, latest@, None)),
        },
        ResolveStage::Search => match ev {
            ResolveEvent::SearchHits(Ok(hs)) => if hs@.len() > 0 {
                Outcome::Await(
                    ResolveStage::SearchLatest { hit: hs@[0] },
                    latest_action(c, hs@[0].id),
                )
            } else {
                not_found(c)
            },
            _ => not_found(c),
        },
        ResolveStage::SearchLatest { hit } => match ev {
            ResolveEvent::LatestFile(Ok(Some(lf))) => if lf.hash_sha1 is Some {
                Outcome::Await(
                    ResolveStage::SearchSha1 { hit, latest: lf },
                    ResolveActionView::HashLocalSha1,
                )
            } else {
                Outcome::Done(cf_search_row(c, hit@, lf@, None))
            },
            _ => not_found(c),
        },
        ResolveStage::SearchSha1 { hit, latest } => match ev {
            ResolveEvent::LocalSha1(Ok(s)) => Outcome::Done(
                cf_search_row(c, hit@, latest@, sha1_identity(opt_view(latest.hash_sha1), Some(s@))),
            ),
            _ => Outcome::Done(cf_search_row(c, hit@, latest@, None)),
        },
    }
}

impl Resolver {
    /// Starts resolving a jar: ask Modrinth for the latest version for its SHA-512, the
    /// loaders and the Minecraft version.
    pub fn begin(ctx: ResolveContext) -> (r: (Resolver, ResolveAction))
        ensures
            r.0.ctx == ctx,
            r.0.stage == ResolveStage::ModrinthLookup,
            r.1@ == (ResolveActionView::LookupModrinthVersion {
                sha512_hex: ctx.scan@.sha512_hex,
                loaders: strings_view(ctx.loaders@),
                game_versions: seq![ctx.minecraft_version@],
            }),
    {
        let loaders = ctx.loaders.clone();
        proof {
            assert(loaders@ =~= ctx.loaders@);
        }
        let game_versions = vec![ctx.minecraft_version.clone()];
        proof {
            assert(game_versions@ =~= seq![ctx.minecraft_version]);
            assert(strings_view(game_versions@) =~= seq![ctx.minecraft_version@]);
            assert(strings_view(loaders@) =~= strings_view(ctx.loaders@));
        }
        let action = ResolveAction::LookupModrinthVersion {
            sha512_hex: ctx.scan.sha512_hex.clone(),
            loaders,
            game_versions,
        };
        (Resolver { ctx, stage: ResolveStage::ModrinthLookup }, action)
    }

    /// Whether `advance` would panic on this reply (what its `requires` leaves out).
    pub fn advance_would_panic(&self, ev: &ResolveEvent) -> (r: bool)
        ensures
            r == advance_panics(self.ctx, self.stage, *ev),
    {
        match &self.stage {
            ResolveStage::ModrinthProject { version } => pick_would_panic(
                version,
                self.ctx.loaders.as_slice(),
                self.ctx.minecraft_version.as_str(),
            ),
            ResolveStage::MatchTitle { latest, .. } => filename_declares_mc_panics(
                latest.file_name.as_str(),
                self.ctx.minecraft_version.as_str(),
            ),
            _ => false,
        }
    }

    /// Whether the reply is the one the stage waits for.
    pub fn accepts(&self, ev: &ResolveEvent) -> (r: bool)
        ensures
            r == fits(self.stage, *ev),
    {
        match &self.stage {
            ResolveStage::ModrinthLookup => matches!(ev, ResolveEvent::ModrinthVersion(_)),
            ResolveStage::ModrinthProject { .. } => matches!(ev, ResolveEvent::ModrinthProject(_)),
            ResolveStage::Fingerprint => matches!(ev, ResolveEvent::Fingerprint(_)),
            ResolveStage::FingerprintLookup => matches!(ev, ResolveEvent::FingerprintMatches(_)),
            ResolveStage::MatchLatest { .. } => matches!(ev, ResolveEvent::LatestFile(_)),
            ResolveStage::MatchTitle { .. } => matches!(ev, ResolveEvent::ModTitle(_)),
            ResolveStage::Search => matches!(ev, ResolveEvent::SearchHits(_)),
            ResolveStage::SearchLatest { .. } => matches!(ev, ResolveEvent::LatestFile(_)),
            ResolveStage::SearchSha1 { .. } => matches!(ev, ResolveEvent::LocalSha1(_)),
        }
    }

    /// Takes the reply to the last action.
    pub fn advance(self, ev: ResolveEvent) -> (r: ResolveNext)
        requires
            fits(self.stage, ev),
            !advance_panics(self.ctx, self.stage, ev),
        ensures
            outcome_of(r) == advance_spec(self.ctx, self.stage, ev),
            keeps_ctx(r, self.ctx),
    {
        let c = self.ctx;
        match self.stage {
            ResolveStage::ModrinthLookup => match ev {
                ResolveEvent::ModrinthVersion(res) => on_modrinth_version(c, res),
                _ => ResolveNext::Done(not_found_result(c)),
            },
            ResolveStage::ModrinthProject { version } => match ev {
                ResolveEvent::ModrinthProject(res) => {
                    let p = match res {
                        Ok(p) => Some(p),
                        Err(_) => None,
                    };
                    ResolveNext::Done(modrinth_result(c, &version, p))
                },
                _ => ResolveNext::Done(not_found_result(c)),
            },
            ResolveStage::Fingerprint => match ev {
                ResolveEvent::Fingerprint(Ok(fp)) => {
                    let fingerprints = vec![fp];
                    assert(fingerprints@ =~= seq![fp]);
                    ResolveNext::Await(
                        Resolver { ctx: c, stage: ResolveStage::FingerprintLookup },
                        ResolveAction::LookupFingerprints { fingerprints },
                    )
                },
                ResolveEvent::Fingerprint(Err(e)) => {
                    let mut out: Vec<char> = Vec::new();
                    append_str(&mut out, "fingerprint: ");
                    append_str(&mut out, e.as_str());
                    ResolveNext::Done(error_row(c, string_of(out.as_slice())))
                },
                _ => ResolveNext::Done(not_found_result(c)),
            },
            ResolveStage::FingerprintLookup => match ev {
                ResolveEvent::FingerprintMatches(Ok(ms)) => {
                    if ms.len() > 0 {
                        let mut ms = ms;
                        let m = ms.remove(0);
                        let mod_id = m.mod_id;
                        let action = latest_file_action(&c, mod_id);
                        ResolveNext::Await(
                            Resolver { ctx: c, stage: ResolveStage::MatchLatest { matched: m } },
                            action,
                        )
                    } else {
                        start_search(c)
                    }
                },
                _ => start_search(c),
            },
            ResolveStage::MatchLatest { matched } => match ev {
                ResolveEvent::LatestFile(Ok(Some(lf))) => {
                    let mod_id = matched.mod_id;
                    ResolveNext::Await(
                        Resolver { ctx: c, stage: ResolveStage::MatchTitle { matched, latest: lf } },
                        ResolveAction::FetchModTitle { mod_id },
                    )
                },
                _ => ResolveNext::Done(
                    bare(
                        c,
                        ResolveStatus::Unknown,
                        Some(RemoteSource::CurseForge),
                        String::from_str("No file for target MC/loader on CurseForge"),
                    ),
                ),
            },
            ResolveStage::MatchTitle { matched, latest } => match ev {
                ResolveEvent::ModTitle(res) => {
                    let t = match res {
                        Ok(t) => Some(t),
                        Err(_) => None,
                    };
                    ResolveNext::Done(cf_match_result(c, &matched, &latest, t))
                },
                _ => ResolveNext::Done(not_found_result(c)),
            },
            ResolveStage::Search => match ev {
                ResolveEvent::SearchHits(Ok(hs)) => {
                    if hs.len() > 0 {
                        let mut hs = hs;
                        let h = hs.remove(0);
                        let mod_id = h.id;
                        let action = latest_file_action(&c, mod_id);
                        ResolveNext::Await(
                            Resolver { ctx: c, stage: ResolveStage::SearchLatest { hit: h } },
                            action,
                        )
                    } else {
                        ResolveNext::Done(not_found_result(c))
                    }
                },
                _ => ResolveNext::Done(not_found_result(c)),
            },
            ResolveStage::SearchLatest { hit } => match ev {
                ResolveEvent::LatestFile(Ok(Some(lf))) => {
                    if lf.hash_sha1.is_some() {
                        ResolveNext::Await(
                            Resolver { ctx: c, stage: ResolveStage::SearchSha1 { hit, latest: lf } },
                            ResolveAction::HashLocalSha1,
                        )
                    } else {
                        ResolveNext::Done(cf_search_result(c, &hit, &lf, None))
                    }
                },
                _ => ResolveNext::Done(not_found_result(c)),
            },
            ResolveStage::SearchSha1 { hit, latest } => match ev {
                ResolveEvent::LocalSha1(Ok(s)) => {
                    let identity = sha1_identity_match(&latest.hash_sha1, &Some(s));
                    ResolveNext::Done(cf_search_result(c, &hit, &latest, identity))
                },
                _ => ResolveNext::Done(cf_search_result(c, &hit, &latest, None)),
            },
        }
    }
}

fn not_found_result(c: ResolveContext) -> (r: ResolvedMod)
    ensures
        r@ == bare_row(c, ResolveStatus::Unknown, None, not_found_msg()),
{
    bare(
        c,
        ResolveStatus::Unknown,
        None,
        String::from_str("Not on Modrinth; CurseForge key missing or no match"),
    )
}

fn latest_file_action(c: &ResolveContext, mod_id: i32) -> (r: ResolveAction)
    ensures
        r@ == latest_action(*c, mod_id),
{
    ResolveAction::LatestFile {
        mod_id,
        minecraft_version: c.minecraft_version.clone(),
        loader: c.cf_loader,
    }
}

fn start_search(c: ResolveContext) -> (r: ResolveNext)
    ensures
        outcome_of(r) == search_start(c),
        keeps_ctx(r, c),
{
    let query = c.display_name.clone();
    ResolveNext::Await(
        Resolver { ctx: c, stage: ResolveStage::Search },
        ResolveAction::SearchMods { query, page_size: 5 },
    )
}

fn on_modrinth_version(c: ResolveContext, res: Result<Option<ModrinthVersion>, String>) -> (r:
    ResolveNext)
    ensures
        outcome_of(r) == advance_spec(c, ResolveStage::ModrinthLookup, ResolveEvent::ModrinthVersion(res)),
        keeps_ctx(r, c),
{
    match res {
        Ok(Some(v)) => {
            if modrinth_response_matches_request(&v, c.minecraft_version.as_str(), c.loaders.as_slice()) {
                let project_id = v.project_id.clone();
                return ResolveNext::Await(
                    Resolver { ctx: c, stage: ResolveStage::ModrinthProject { version: v } },
                    ResolveAction::FetchModrinthProject { project_id },
                );
            }
        },
        _ => {},
    }
    if c.curseforge {
        ResolveNext::Await(
            Resolver { ctx: c, stage: ResolveStage::Fingerprint },
            ResolveAction::FingerprintJar,
        )
    } else {
        ResolveNext::Done(not_found_result(c))
    }
}


/// Rows are listed by display name ignoring ASCII case, then by file name.
impl SortKey for ResolvedMod {
    open spec fn key(&self) -> KeyView {
        (ascii_lower(self.display_name@), self.scan.file_name@)
    }

    fn sort_key(&self) -> (r: (Vec<char>, Vec<char>)) {
        let d = chars_of(self.display_name.as_str());
        (lower_chars(d.as_slice()), chars_of(self.scan.file_name.as_str()))
    }
}

/// The rows of the table in display order (equal keys keep their order).
pub fn sort_resolved(v: Vec<ResolvedMod>) -> (r: Vec<ResolvedMod>)
    ensures
        stable_sort_of(r@, v@),
{
    stable_sort(v)
}

/// A version is never newer than itself.
pub proof fn law_newer_irreflexive(v: Seq<char>)
    ensures
        !newer_version(v, v),
{
}

/// The stages in the order a resolution passes through them.
pub open spec fn stage_rank(st: ResolveStage) -> int {
    match st {
        ResolveStage::ModrinthLookup => 0,
        ResolveStage::ModrinthProject { .. } => 1,
        ResolveStage::Fingerprint => 2,
        ResolveStage::FingerprintLookup => 3,
        ResolveStage::MatchLatest { .. } => 4,
        ResolveStage::MatchTitle { .. } => 5,
        ResolveStage::Search => 6,
        ResolveStage::SearchLatest { .. } => 7,
        ResolveStage::SearchSha1 { .. } => 8,
    }
}

/// Every reply moves a resolution to a later stage or finishes it, so resolving a jar
/// takes at most nine replies.
pub proof fn law_resolution_progresses(c: ResolveContext, st: ResolveStage, ev: ResolveEvent)
    requires
        fits(st, ev),
    ensures
        advance_spec(c, st, ev) matches Outcome::Await(next, _) ==> stage_rank(next) > stage_rank(st),
{
}

/// Without a CurseForge key only Modrinth is asked: a reply to a Modrinth request leads
/// to another Modrinth request or to the finished row.
pub proof fn law_modrinth_only_without_key(c: ResolveContext, st: ResolveStage, ev: ResolveEvent)
    requires
        !c.curseforge,
        st is ModrinthLookup || st is ModrinthProject,
        fits(st, ev),
    ensures
        advance_spec(c, st, ev) matches Outcome::Await(next, action) ==> next is ModrinthProject
            && action is FetchModrinthProject,
{
}

/// A finished row is up to date exactly when the remote file is known to be the
/// installed one, and has an update exactly when it is known to be another file.
pub proof fn law_finished_row_status(c: ResolveContext, st: ResolveStage, ev: ResolveEvent)
    requires
        fits(st, ev),
    ensures
        advance_spec(c, st, ev) matches Outcome::Done(row) ==> {
            &&& (row.status == ResolveStatus::UpToDate <==> row.identity_match == Some(true))
            &&& (row.status == ResolveStatus::UpdateAvailable <==> row.identity_match == Some(false))
        },
{
}

/// A finished row keeps the scanned jar, its display name and its local version.
pub proof fn law_finished_row_keeps_jar(c: ResolveContext, st: ResolveStage, ev: ResolveEvent)
    requires
        fits(st, ev),
    ensures
        advance_spec(c, st, ev) matches Outcome::Done(row) ==> {
            &&& row.scan == c.scan@
            &&& row.display_name == c.display_name@
            &&& row.local_version == c.local_version@
        },
{
}

/// The file chosen from a Modrinth version is a mod jar (not sources, javadoc or a dev
/// build).
pub proof fn law_pick_is_mod_jar(fs: Seq<ModrinthFileView>, loaders: Seq<Seq<char>>, mc: Seq<char>)
    ensures
        pick_index(fs, loaders, mc) matches Some(k) ==> is_mod_jar_name(fs[k].filename),
{
    lemma_pick_in_range(fs, loaders, mc);
}


/// Modrinth's answer is used when any one of the game versions it lists is the requested
/// Minecraft version (both trimmed, ignoring ASCII case), not only the first, and one of
/// its loaders (if it lists any) is a requested one.
pub proof fn law_any_listed_game_version_matches(
    v: ModrinthVersionView,
    mc: Seq<char>,
    loaders: Seq<Seq<char>>,
    k: int,
    i: int,
    j: int,
)
    requires
        0 <= k < v.game_versions.len(),
        eq_ignore_case(trim(v.game_versions[k]), trim(mc)),
        v.loaders.len() == 0 || (0 <= i < v.loaders.len() && 0 <= j < loaders.len()
            && eq_ignore_case(v.loaders[i], loaders[j])),
    ensures
        response_matches(v, mc, loaders),
{
    if v.loaders.len() > 0 {
        assert(lists_ignore_case(v.loaders, loaders[j]));
    }
}

/// Modrinth's answer is refused when it lists game versions and none of them is the
/// requested one (trimmed, ignoring ASCII case).
pub proof fn law_unlisted_game_version_refused(
    v: ModrinthVersionView,
    mc: Seq<char>,
    loaders: Seq<Seq<char>>,
)
    requires
        v.game_versions.len() > 0,
        forall|k: int|
            0 <= k < v.game_versions.len() ==> !eq_ignore_case(
                trim(#[trigger] v.game_versions[k]),
                trim(mc),
            ),
    ensures
        !response_matches(v, mc, loaders),
{
}

/// On a Modrinth row the jar counts as up to date exactly when the chosen file's SHA-512
/// is the jar's own, ignoring ASCII case, and as having an update exactly when the file
/// lists a different one.
pub proof fn law_modrinth_identity(
    c: ResolveContext,
    v: ModrinthVersionView,
    project: Option<ModrinthProjectView>,
)
    ensures
        ({
            let row = modrinth_row(c, v, project);
            &&& (row.identity_match is None <==> row.remote_file_sha512 is None)
            &&& (row.identity_match matches Some(b) ==> (b <==> eq_ignore_case(
                row.remote_file_sha512->0,
                c.scan@.sha512_hex,
            )))
            &&& (row.status == ResolveStatus::UpToDate ==> (row.remote_file_sha512 matches Some(
                h,
            ) && eq_ignore_case(h, c.scan@.sha512_hex)))
            &&& (row.status == ResolveStatus::UpdateAvailable ==> (row.remote_file_sha512 matches Some(
                h,
            ) && !eq_ignore_case(h, c.scan@.sha512_hex)))
        }),
{
}

/// After a CurseForge search that found something, the resolution continues with the
/// first hit: it waits for that mod's newest file and asks for it by the hit's id.
pub proof fn law_search_takes_first_hit(c: ResolveContext, hs: Vec<CfModSearchHit>)
    requires
        hs@.len() > 0,
    ensures
        advance_spec(c, ResolveStage::Search, ResolveEvent::SearchHits(Ok(hs))) == Outcome::Await(
            ResolveStage::SearchLatest { hit: hs@[0] },
            ResolveActionView::LatestFile {
                mod_id: hs@[0].id,
                minecraft_version: c.minecraft_version@,
                loader: c.cf_loader,
            },
        ),
{
}

} // verus!
