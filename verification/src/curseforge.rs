//! CurseForge: loader ids, the jar fingerprint, and reading API responses.
use vstd::prelude::*;
use crate::text::{
    append_str, dec_text, i32_text, int_text, ix, lemma_lex_order, lex_lt, str_eq, str_lt, string_of,
    strings_view, u32_text,
};
use crate::tree::{DataNode, get_int, get_str, node_get, node_str};

verus! {

/// CurseForge's game id for Minecraft.
pub const MINECRAFT_GAME_ID: i32 = 432;

/// CurseForge `modLoader` field on files (API `ModLoaderType`).
#[derive(Debug, Clone, Copy, PartialEq, Eq)]
pub enum CfModLoader {
    Forge,
    Fabric,
    Quilt,
    NeoForge,
}

/// The loader named by a normalized loader string.
pub open spec fn loader_named(s: Seq<char>) -> Option<CfModLoader> {
    if s == "forge"@ {
        Some(CfModLoader::Forge)
    } else if s == "fabric"@ {
        Some(CfModLoader::Fabric)
    } else if s == "quilt"@ {
        Some(CfModLoader::Quilt)
    } else if s == "neoforge"@ {
        Some(CfModLoader::NeoForge)
    } else {
        None
    }
}

impl CfModLoader {
    /// The `ModLoaderType` number the API uses.
    pub open spec fn type_id(self) -> i32 {
        match self {
            CfModLoader::Forge => 1,
            CfModLoader::Fabric => 4,
            CfModLoader::Quilt => 5,
            CfModLoader::NeoForge => 6,
        }
    }

    /// The `ModLoaderType` number the API uses.
    pub fn id(&self) -> (r: i32)
        ensures
            r == self.type_id(),
    {
        match self {
            CfModLoader::Forge => 1,
            CfModLoader::Fabric => 4,
            CfModLoader::Quilt => 5,
            CfModLoader::NeoForge => 6,
        }
    }

    /// The loader for `forge`, `fabric`, `quilt` or `neoforge`; `None` otherwise.
    pub fn from_loader_str(s: &str) -> (r: Option<Self>)
        ensures
            r == loader_named(s@),
    {
        if str_eq(s, "forge") {
            Some(CfModLoader::Forge)
        } else if str_eq(s, "fabric") {
            Some(CfModLoader::Fabric)
        } else if str_eq(s, "quilt") {
            Some(CfModLoader::Quilt)
        } else if str_eq(s, "neoforge") {
            Some(CfModLoader::NeoForge)
        } else {
            None
        }
    }
}

/// Bytes the fingerprint skips: tab, newline, carriage return and space.
pub open spec fn fp_whitespace(b: u8) -> bool {
    b == 9 || b == 10 || b == 13 || b == 32
}

/// Number of bytes that are not fingerprint whitespace.
pub open spec fn normalized_count(s: Seq<u8>) -> nat
    decreases s.len(),
{
    if s.len() == 0 {
        0
    } else {
        normalized_count(s.drop_last()) + if fp_whitespace(s.last()) {
            0nat
        } else {
            1nat
        }
    }
}

pub open spec fn fp_mul(a: u32, b: u32) -> u32 {
    vstd::wrapping::u32_specs::wrapping_mul(a, b)
}

pub open spec fn fp_multiplex() -> u32 {
    1_540_483_477u32
}

/// One step of the fingerprint over a byte: `(hash, pending word, bits pending)`.
pub open spec fn fp_step(st: (u32, u32, u32), b: u8) -> (u32, u32, u32) {
    if fp_whitespace(b) {
        st
    } else {
        let word = st.1 | ((b as u32) << st.2);
        let bits = (st.2 + 8) as u32;
        if bits == 32 {
            let n6 = fp_mul(word, fp_multiplex());
            let n7 = fp_mul(n6 ^ (n6 >> 24u32), fp_multiplex());
            (fp_mul(st.0, fp_multiplex()) ^ n7, 0u32, 0u32)
        } else {
            (st.0, word, bits)
        }
    }
}

/// The fingerprint state after all bytes of `s`, starting from hash `h0`.
pub open spec fn fp_run(s: Seq<u8>, h0: u32) -> (u32, u32, u32)
    decreases s.len(),
{
    if s.len() == 0 {
        (h0, 0u32, 0u32)
    } else {
        fp_step(fp_run(s.drop_last(), h0), s.last())
    }
}

/// CurseForge's jar fingerprint (MurmurHash2 over the non-whitespace bytes, seeded with
/// their count taken modulo 2^32).
pub open spec fn cf_fingerprint(s: Seq<u8>) -> u32 {
    let st = fp_run(s, 1u32 ^ ((normalized_count(s) % 0x1_0000_0000) as u32));
    let h = if st.2 > 0 {
        fp_mul(st.0 ^ st.1, fp_multiplex())
    } else {
        st.0
    };
    let n6 = fp_mul(h ^ (h >> 13u32), fp_multiplex());
    n6 ^ (n6 >> 15u32)
}

/// The bytes the fingerprint reads: all but whitespace.
pub open spec fn fp_payload(s: Seq<u8>) -> Seq<u8> {
    s.filter(|b: u8| !fp_whitespace(b))
}

proof fn lemma_payload(s: Seq<u8>, h0: u32)
    ensures
        fp_run(s, h0) == fp_run(fp_payload(s), h0),
        normalized_count(s) == fp_payload(s).len(),
    decreases s.len(),
{
    reveal(Seq::filter);
    if s.len() > 0 {
        lemma_payload(s.drop_last(), h0);
        let p = fp_payload(s);
        if !fp_whitespace(s.last()) {
            assert(p.drop_last() == fp_payload(s.drop_last()));
            assert(p.last() == s.last());
        }
    }
}

proof fn lemma_payload_clean(s: Seq<u8>)
    ensures
        fp_payload(fp_payload(s)) == fp_payload(s),
    decreases s.len(),
{
    reveal(Seq::filter);
    if s.len() > 0 {
        lemma_payload_clean(s.drop_last());
        let p = fp_payload(s);
        if !fp_whitespace(s.last()) {
            assert(p.drop_last() == fp_payload(s.drop_last()));
            assert(p.last() == s.last());
        }
    }
}

/// Whitespace bytes (tab, newline, carriage return, space) do not affect the
/// fingerprint: a jar has the fingerprint of its bytes with all of them removed.
pub proof fn law_fingerprint_ignores_whitespace(s: Seq<u8>)
    ensures
        cf_fingerprint(s) == cf_fingerprint(fp_payload(s)),
{
    lemma_payload_clean(s);
    lemma_payload(s, 1u32 ^ ((normalized_count(s) % 0x1_0000_0000) as u32));
    lemma_payload(fp_payload(s), 1u32 ^ ((normalized_count(s) % 0x1_0000_0000) as u32));
    lemma_payload(fp_payload(s), 0);
}

proof fn lemma_mul_undone(a: u32)
    ensures
        fp_mul(fp_mul(a, fp_multiplex()), 3_852_147_133u32) == a,
{
    assert(fp_mul(fp_mul(a, 1_540_483_477u32), 3_852_147_133u32) == a) by (bit_vector);
}

/// The mixing steps of the hash lose nothing: different inputs stay different.
proof fn lemma_mix_injective(a: u32, b: u32)
    requires
        a != b,
    ensures
        fp_mul(a, fp_multiplex()) != fp_mul(b, fp_multiplex()),
        a ^ (a >> 13u32) != b ^ (b >> 13u32),
        a ^ (a >> 15u32) != b ^ (b >> 15u32),
        a ^ (a >> 24u32) != b ^ (b >> 24u32),
{
    lemma_mul_undone(a);
    lemma_mul_undone(b);
    assert(a != b ==> a ^ (a >> 13u32) != b ^ (b >> 13u32)) by (bit_vector);
    assert(a != b ==> a ^ (a >> 15u32) != b ^ (b >> 15u32)) by (bit_vector);
    assert(a != b ==> a ^ (a >> 24u32) != b ^ (b >> 24u32)) by (bit_vector);
}

/// The pending word holds whole bytes below its bit count.
proof fn lemma_run_shape(s: Seq<u8>, h0: u32)
    ensures
        ({
            let st = fp_run(s, h0);
            &&& (st.2 == 0 || st.2 == 8 || st.2 == 16 || st.2 == 24)
            &&& st.1 >> st.2 == 0
        }),
    decreases s.len(),
{
    assert(0u32 >> 0u32 == 0) by (bit_vector);
    if s.len() > 0 {
        lemma_run_shape(s.drop_last(), h0);
        let st = fp_run(s.drop_last(), h0);
        let b = s.last();
        let w = st.1;
        let k = st.2;
        if !fp_whitespace(b) && k < 24 {
            assert((w >> k == 0 && k <= 16) ==> (w | ((b as u32) << k)) >> ((k + 8) as u32) == 0)
                by (bit_vector);
        }
    }
}

/// Two different bytes added to the same pending word give different words.
proof fn lemma_word_differs(w: u32, k: u32, x: u8, y: u8)
    requires
        w >> k == 0,
        k <= 24,
        x != y,
    ensures
        (w | ((x as u32) << k)) != (w | ((y as u32) << k)),
{
    assert((w >> k == 0 && k <= 24 && x != y) ==> (w | ((x as u32) << k)) != (w | ((y as u32)
        << k))) by (bit_vector);
}

/// The last avalanche of the fingerprint keeps different hashes different.
proof fn lemma_avalanche_differs(h: u32, g: u32)
    requires
        h != g,
    ensures
        ({
            let a = fp_mul(h ^ (h >> 13u32), fp_multiplex());
            let b = fp_mul(g ^ (g >> 13u32), fp_multiplex());
            a ^ (a >> 15u32) != b ^ (b >> 15u32)
        }),
{
    lemma_mix_injective(h, g);
    let x = h ^ (h >> 13u32);
    let y = g ^ (g >> 13u32);
    lemma_mix_injective(x, y);
    lemma_mix_injective(fp_mul(x, fp_multiplex()), fp_mul(y, fp_multiplex()));
}

/// Every byte that is not whitespace counts, the last one included: two jars that differ
/// only in their last byte, both bytes not whitespace, have different fingerprints.
pub proof fn law_fingerprint_reads_last_byte(s: Seq<u8>, x: u8, y: u8)
    requires
        !fp_whitespace(x),
        !fp_whitespace(y),
        x != y,
    ensures
        cf_fingerprint(s.push(x)) != cf_fingerprint(s.push(y)),
{
    let sx = s.push(x);
    let sy = s.push(y);
    assert(sx.drop_last() == s);
    assert(sy.drop_last() == s);
    assert(normalized_count(sx) == normalized_count(sy));
    let h0 = 1u32 ^ ((normalized_count(sx) % 0x1_0000_0000) as u32);
    let st = fp_run(s, h0);
    lemma_run_shape(s, h0);
    assert(fp_run(sx, h0) == fp_step(st, x));
    assert(fp_run(sy, h0) == fp_step(st, y));
    let wx = st.1 | ((x as u32) << st.2);
    let wy = st.1 | ((y as u32) << st.2);
    lemma_word_differs(st.1, st.2, x, y);
    let m = fp_multiplex();
    let (hx, hy) = if st.2 == 24 {
        lemma_mix_injective(wx, wy);
        let ax = fp_mul(wx, m);
        let ay = fp_mul(wy, m);
        lemma_mix_injective(ax, ay);
        lemma_mix_injective(ax ^ (ax >> 24u32), ay ^ (ay >> 24u32));
        let nx = fp_mul(ax ^ (ax >> 24u32), m);
        let ny = fp_mul(ay ^ (ay >> 24u32), m);
        assert((fp_mul(st.0, m) ^ nx) != (fp_mul(st.0, m) ^ ny)) by {
            let c = fp_mul(st.0, m);
            assert(nx != ny ==> (c ^ nx) != (c ^ ny)) by (bit_vector);
        }
        assert(fp_step(st, x) == (fp_mul(st.0, m) ^ nx, 0u32, 0u32));
        assert(fp_step(st, y) == (fp_mul(st.0, m) ^ ny, 0u32, 0u32));
        (fp_mul(st.0, m) ^ nx, fp_mul(st.0, m) ^ ny)
    } else {
        let h = st.0;
        assert((h ^ wx) != (h ^ wy)) by {
            assert(wx != wy ==> (h ^ wx) != (h ^ wy)) by (bit_vector);
        }
        lemma_mix_injective(h ^ wx, h ^ wy);
        assert(fp_step(st, x) == (h, wx, (st.2 + 8) as u32));
        assert(fp_step(st, y) == (h, wy, (st.2 + 8) as u32));
        (fp_mul(h ^ wx, m), fp_mul(h ^ wy, m))
    };
    lemma_avalanche_differs(hx, hy);
}

fn is_whitespace(b: u8) -> (r: bool)
    ensures
        r == fp_whitespace(b),
{
    b == 9 || b == 10 || b == 13 || b == 32
}

fn compute_normalized_length(buffer: &[u8]) -> (r: u32)
    ensures
        r == normalized_count(buffer@) % 0x1_0000_0000,
{
    let mut count: u32 = 0;
    let mut i: usize = 0;
    while i < buffer.len()
        invariant
            i <= buffer@.len(),
            count == normalized_count(buffer@.subrange(0, i as int)) % 0x1_0000_0000,
        decreases buffer@.len() - i,
    {
        proof {
            assert(buffer@.subrange(0, i + 1).drop_last() == buffer@.subrange(0, i as int));
        }
        if !is_whitespace(buffer[i]) {
            count = count.wrapping_add(1);
        }
        i = i + 1;
    }
    proof {
        assert(buffer@.subrange(0, buffer@.len() as int) == buffer@);
    }
    count
}

/// CurseForge's jar fingerprint of `buffer`.
pub fn fingerprint_jar_bytes(buffer: &[u8]) -> (r: u32)
    ensures
        r == cf_fingerprint(buffer@),
{
    let multiplex: u32 = 1_540_483_477;
    let num1 = compute_normalized_length(buffer);
    let mut num2: u32 = 1u32 ^ num1;
    let mut num3: u32 = 0;
    let mut num4: u32 = 0;
    let mut i: usize = 0;
    while i < buffer.len()
        invariant
            multiplex == fp_multiplex(),
            i <= buffer@.len(),
            num4 == 0 || num4 == 8 || num4 == 16 || num4 == 24,
            (num2, num3, num4) == fp_run(buffer@.subrange(0, i as int), 1u32 ^ num1),
        decreases buffer@.len() - i,
    {
        let b = buffer[i];
        proof {
            assert(buffer@.subrange(0, i + 1).drop_last() == buffer@.subrange(0, i as int));
        }
        if !is_whitespace(b) {
            num3 = num3 | ((b as u32) << num4);
            num4 = num4 + 8;
            if num4 == 32 {
                let num6 = num3.wrapping_mul(multiplex);
                let num7 = (num6 ^ (num6 >> 24u32)).wrapping_mul(multiplex);
                num2 = (num2.wrapping_mul(multiplex)) ^ num7;
                num3 = 0;
                num4 = 0;
            }
        }
        i = i + 1;
    }
    proof {
        assert(buffer@.subrange(0, buffer@.len() as int) == buffer@);
    }
    if num4 > 0 {
        num2 = (num2 ^ num3).wrapping_mul(multiplex);
    }
    let num6 = (num2 ^ (num2 >> 13u32)).wrapping_mul(multiplex);
    num6 ^ (num6 >> 15u32)
}


/// A file matched by fingerprint.
#[derive(Debug, Clone)]
pub struct FingerprintMatch {
    pub mod_id: i32,
    pub file_id: i32,
    pub file_name: String,
    pub download_url: Option<String>,
    pub game_versions: Vec<String>,
    pub mod_loader: i32,
}

/// A search result.
#[derive(Debug, Clone)]
pub struct CfModSearchHit {
    pub id: i32,
    pub name: String,
    pub slug: String,
}

/// A file of a mod, as listed by the API.
#[derive(Debug, Clone)]
pub struct CfFileSummary {
    pub file_id: i32,
    pub file_name: String,
    pub download_url: Option<String>,
    pub game_versions: Vec<String>,
    pub mod_loader: i32,
    pub file_date: String,
    pub release_type: u8,
    /// The file's SHA-1 (hex), when the API lists one.
    pub hash_sha1: Option<String>,
}

pub open spec fn opt_view(o: Option<String>) -> Option<Seq<char>> {
    match o {
        Some(s) => Some(s@),
        None => None,
    }
}

pub struct FingerprintMatchView {
    pub mod_id: i32,
    pub file_id: i32,
    pub file_name: Seq<char>,
    pub download_url: Option<Seq<char>>,
    pub game_versions: Seq<Seq<char>>,
    pub mod_loader: i32,
}

impl View for FingerprintMatch {
    type V = FingerprintMatchView;

    open spec fn view(&self) -> FingerprintMatchView {
        FingerprintMatchView {
            mod_id: self.mod_id,
            file_id: self.file_id,
            file_name: self.file_name@,
            download_url: opt_view(self.download_url),
            game_versions: strings_view(self.game_versions@),
            mod_loader: self.mod_loader,
        }
    }
}

pub struct CfModSearchHitView {
    pub id: i32,
    pub name: Seq<char>,
    pub slug: Seq<char>,
}

impl View for CfModSearchHit {
    type V = CfModSearchHitView;

    open spec fn view(&self) -> CfModSearchHitView {
        CfModSearchHitView { id: self.id, name: self.name@, slug: self.slug@ }
    }
}

pub struct CfFileSummaryView {
    pub file_id: i32,
    pub file_name: Seq<char>,
    pub download_url: Option<Seq<char>>,
    pub game_versions: Seq<Seq<char>>,
    pub mod_loader: i32,
    pub file_date: Seq<char>,
    pub release_type: u8,
    pub hash_sha1: Option<Seq<char>>,
}

impl View for CfFileSummary {
    type V = CfFileSummaryView;

    open spec fn view(&self) -> CfFileSummaryView {
        CfFileSummaryView {
            file_id: self.file_id,
            file_name: self.file_name@,
            download_url: opt_view(self.download_url),
            game_versions: strings_view(self.game_versions@),
            mod_loader: self.mod_loader,
            file_date: self.file_date@,
            release_type: self.release_type,
            hash_sha1: opt_view(self.hash_sha1),
        }
    }
}

/// `v.get(key).and_then(as_i64).unwrap_or(0) as i32`.
pub open spec fn int_field(v: DataNode, key: Seq<char>) -> i32 {
    match get_int(v, key) {
        Some(i) => i as i32,
        None => 0,
    }
}

/// `v.get(key).and_then(as_str).unwrap_or("")`.
pub open spec fn str_field(v: DataNode, key: Seq<char>) -> Seq<char> {
    match get_str(v, key) {
        Some(s) => s,
        None => Seq::empty(),
    }
}

/// The string elements of a sequence of values, in order.
pub open spec fn str_members(items: Seq<DataNode>) -> Seq<Seq<char>>
    decreases items.len(),
{
    if items.len() == 0 {
        Seq::empty()
    } else {
        let rest = str_members(items.drop_last());
        match node_str(items.last()) {
            Some(s) => rest.push(s),
            None => rest,
        }
    }
}

/// The elements of the array member `key`, empty when absent or not an array.
pub open spec fn array_field(v: DataNode, key: Seq<char>) -> Seq<DataNode> {
    match node_get(v, key) {
        Some(DataNode::Arr(items)) => items@,
        _ => Seq::empty(),
    }
}

/// The strings listed under `key`.
pub open spec fn string_list(v: DataNode, key: Seq<char>) -> Seq<Seq<char>> {
    str_members(array_field(v, key))
}

pub open spec fn fp_match_of(m: DataNode) -> FingerprintMatchView {
    let file = match node_get(m, "file"@) {
        Some(f) => f,
        None => DataNode::Null,
    };
    FingerprintMatchView {
        mod_id: int_field(file, "modId"@),
        file_id: int_field(file, "id"@),
        file_name: str_field(file, "fileName"@),
        download_url: get_str(file, "downloadUrl"@),
        game_versions: string_list(file, "gameVersions"@),
        mod_loader: int_field(file, "modLoader"@),
    }
}

/// `data.exactMatches` of a fingerprint response.
pub open spec fn exact_matches(v: DataNode) -> Seq<DataNode> {
    match node_get(v, "data"@) {
        Some(d) => array_field(d, "exactMatches"@),
        None => Seq::empty(),
    }
}

pub open spec fn search_hit_of(item: DataNode) -> CfModSearchHitView {
    CfModSearchHitView {
        id: int_field(item, "id"@),
        name: str_field(item, "name"@),
        slug: str_field(item, "slug"@),
    }
}

/// The SHA-1 among a file's `hashes` entries (`algo` 1), searching from position `i`.
pub open spec fn sha1_from(hashes: Seq<DataNode>, i: int) -> Option<Seq<char>>
    decreases hashes.len() - i,
{
    if 0 <= i < hashes.len() {
        if get_int(hashes[i], "algo"@) == Some(1i64) && get_str(hashes[i], "value"@) is Some {
            get_str(hashes[i], "value"@)
        } else {
            sha1_from(hashes, i + 1)
        }
    } else {
        None
    }
}

pub open spec fn file_summary_of(f: DataNode) -> CfFileSummaryView {
    CfFileSummaryView {
        file_id: int_field(f, "id"@),
        file_name: str_field(f, "fileName"@),
        download_url: get_str(f, "downloadUrl"@),
        game_versions: string_list(f, "gameVersions"@),
        mod_loader: int_field(f, "modLoader"@),
        file_date: str_field(f, "fileDate"@),
        release_type: match get_int(f, "releaseType"@) {
            Some(i) => i as u8,
            None => 0u8,
        },
        hash_sha1: sha1_from(array_field(f, "hashes"@), 0),
    }
}

/// A listed file is a candidate: it names the exact game version and, when a loader is
/// asked for, that loader.
pub open spec fn file_is_candidate(f: CfFileSummaryView, mc: Seq<char>, loader: Option<CfModLoader>) -> bool {
    &&& f.game_versions.contains(mc)
    &&& (loader matches Some(w) ==> f.mod_loader == w.type_id())
}

/// The candidates among a page of files, in order.
pub open spec fn page_candidates(
    data: Seq<DataNode>,
    mc: Seq<char>,
    loader: Option<CfModLoader>,
) -> Seq<CfFileSummaryView>
    decreases data.len(),
{
    if data.len() == 0 {
        Seq::empty()
    } else {
        let rest = page_candidates(data.drop_last(), mc, loader);
        if file_is_candidate(file_summary_of(data.last()), mc, loader) {
            rest.push(file_summary_of(data.last()))
        } else {
            rest
        }
    }
}

/// Every file kept from a page lists the Minecraft version and, when a loader is asked
/// for, is for that loader.
pub proof fn law_candidates_match(data: Seq<DataNode>, mc: Seq<char>, loader: Option<CfModLoader>)
    ensures
        forall|i: int|
            0 <= i < page_candidates(data, mc, loader).len() ==> file_is_candidate(
                #[trigger] page_candidates(data, mc, loader)[i],
                mc,
                loader,
            ),
    decreases data.len(),
{
    if data.len() > 0 {
        law_candidates_match(data.drop_last(), mc, loader);
        let rest = page_candidates(data.drop_last(), mc, loader);
        let all = page_candidates(data, mc, loader);
        assert forall|i: int| 0 <= i < all.len() implies file_is_candidate(#[trigger] all[i], mc, loader) by {
            if i < rest.len() {
                assert(all[i] == rest[i]);
            }
        }
    }
}

fn clone_opt_string(o: Option<&String>) -> (r: Option<String>)
    ensures
        r matches Some(s) ==> o matches Some(t) && s@ == t@,
        r is None ==> o is None,
{
    match o {
        Some(s) => Some(s.clone()),
        None => None,
    }
}

fn int_field_exec(v: &DataNode, key: &str) -> (r: i32)
    ensures
        r == int_field(*v, key@),
{
    match v.get_i64(key) {
        Some(i) => i as i32,
        None => 0,
    }
}

fn str_field_exec(v: &DataNode, key: &str) -> (r: String)
    ensures
        r@ == str_field(*v, key@),
{
    match v.get_str(key) {
        Some(s) => s.clone(),
        None => String::new(),
    }
}

fn array_field_exec<'a>(v: &'a DataNode, key: &str) -> (r: &'a [DataNode])
    ensures
        r@ == array_field(*v, key@),
{
    match v.get(key) {
        Some(x) => match x.as_array() {
            Some(items) => items.as_slice(),
            None => &[],
        },
        None => &[],
    }
}

fn string_members(items: &[DataNode]) -> (r: Vec<String>)
    ensures
        strings_view(r@) == str_members(items@),
{
    let mut out: Vec<String> = Vec::new();
    let mut i: usize = 0;
    while i < items.len()
        invariant
            i <= items@.len(),
            strings_view(out@) == str_members(items@.subrange(0, i as int)),
        decreases items@.len() - i,
    {
        proof {
            assert(items@.subrange(0, i + 1).drop_last() == items@.subrange(0, i as int));
        }
        match items[i].as_str() {
            Some(s) => {
                let ghost before = out@;
                out.push(s.clone());
                proof {
                    assert(strings_view(out@) =~= strings_view(before).push(s@));
                }
            },
            None => {},
        }
        i = i + 1;
    }
    proof {
        assert(items@.subrange(0, items@.len() as int) == items@);
    }
    out
}

fn sha1_of_hashes(hashes: &[DataNode]) -> (r: Option<String>)
    ensures
        opt_view(r) == sha1_from(hashes@, 0),
{
    let mut i: usize = 0;
    while i < hashes.len()
        invariant
            i <= hashes@.len(),
            sha1_from(hashes@, i as int) == sha1_from(hashes@, 0),
        decreases hashes@.len() - i,
    {
        if hashes[i].get_i64("algo") == Some(1i64) {
            if let Some(v) = hashes[i].get_str("value") {
                return Some(v.clone());
            }
        }
        i = i + 1;
    }
    None
}

/// Reads one entry of a fingerprint response's `exactMatches`.
pub fn fingerprint_match_from(m: &DataNode) -> (r: FingerprintMatch)
    ensures
        r@ == fp_match_of(*m),
{
    let null = DataNode::Null;
    let file = match m.get("file") {
        Some(f) => f,
        None => &null,
    };
    FingerprintMatch {
        mod_id: int_field_exec(file, "modId"),
        file_id: int_field_exec(file, "id"),
        file_name: str_field_exec(file, "fileName"),
        download_url: clone_opt_string(file.get_str("downloadUrl")),
        game_versions: string_members(array_field_exec(file, "gameVersions")),
        mod_loader: int_field_exec(file, "modLoader"),
    }
}

/// All exact matches of a fingerprint response, in order.
pub fn fingerprint_matches_from(resp: &DataNode) -> (r: Vec<FingerprintMatch>)
    ensures
        r@.len() == exact_matches(*resp).len(),
        forall|i: int| 0 <= i < r@.len() ==> (#[trigger] r@[i])@ == fp_match_of(exact_matches(*resp)[i]),
{
    let arr: &[DataNode] = match resp.get("data") {
        Some(d) => array_field_exec(d, "exactMatches"),
        None => &[],
    };
    let mut out: Vec<FingerprintMatch> = Vec::new();
    let mut i: usize = 0;
    while i < arr.len()
        invariant
            arr@ == exact_matches(*resp),
            i <= arr@.len(),
            out@.len() == i,
            forall|k: int| 0 <= k < i ==> (#[trigger] out@[k])@ == fp_match_of(arr@[k]),
        decreases arr@.len() - i,
    {
        out.push(fingerprint_match_from(&arr[i]));
        i = i + 1;
    }
    out
}

/// `data` of a search response, each item read as a hit, in order.
pub fn search_hits_from(resp: &DataNode) -> (r: Vec<CfModSearchHit>)
    ensures
        r@.len() == array_field(*resp, "data"@).len(),
        forall|i: int|
            0 <= i < r@.len() ==> (#[trigger] r@[i])@ == search_hit_of(array_field(*resp, "data"@)[i]),
{
    let data = array_field_exec(resp, "data");
    let mut out: Vec<CfModSearchHit> = Vec::new();
    let mut i: usize = 0;
    while i < data.len()
        invariant
            data@ == array_field(*resp, "data"@),
            i <= data@.len(),
            out@.len() == i,
            forall|k: int| 0 <= k < i ==> (#[trigger] out@[k])@ == search_hit_of(data@[k]),
        decreases data@.len() - i,
    {
        let item = &data[i];
        out.push(
            CfModSearchHit {
                id: int_field_exec(item, "id"),
                name: str_field_exec(item, "name"),
                slug: str_field_exec(item, "slug"),
            },
        );
        i = i + 1;
    }
    out
}

/// `data.name` of a mod response, or empty text.
pub open spec fn mod_name_of(resp: DataNode) -> Seq<char> {
    match node_get(resp, "data"@) {
        Some(d) => str_field(d, "name"@),
        None => Seq::empty(),
    }
}

/// The mod's name from a `mods/{id}` response.
pub fn mod_name_from(resp: &DataNode) -> (r: String)
    ensures
        r@ == mod_name_of(*resp),
{
    match resp.get("data") {
        Some(d) => str_field_exec(d, "name"),
        None => String::new(),
    }
}

/// Reads one listed file.
pub fn file_summary_from(f: &DataNode) -> (r: CfFileSummary)
    ensures
        r@ == file_summary_of(*f),
{
    let release_type: u8 = match f.get_i64("releaseType") {
        Some(i) => i as u8,
        None => 0,
    };
    CfFileSummary {
        file_id: int_field_exec(f, "id"),
        file_name: str_field_exec(f, "fileName"),
        download_url: clone_opt_string(f.get_str("downloadUrl")),
        game_versions: string_members(array_field_exec(f, "gameVersions")),
        mod_loader: int_field_exec(f, "modLoader"),
        file_date: str_field_exec(f, "fileDate"),
        release_type,
        hash_sha1: sha1_of_hashes(array_field_exec(f, "hashes")),
    }
}

fn lists_version(versions: &Vec<String>, mc: &str) -> (r: bool)
    ensures
        r == strings_view(versions@).contains(mc@),
{
    let mut i: usize = 0;
    while i < versions.len()
        invariant
            i <= versions@.len(),
            forall|k: int| 0 <= k < i ==> versions@[k]@ != mc@,
        decreases versions@.len() - i,
    {
        if str_eq(versions[i].as_str(), mc) {
            proof {
                assert(strings_view(versions@)[ix(i)] == mc@);
            }
            return true;
        }
        i = i + 1;
    }
    proof {
        if strings_view(versions@).contains(mc@) {
            let k = choose|k: int| 0 <= k < strings_view(versions@).len() && strings_view(versions@)[k] == mc@;
            assert(versions@[k]@ == mc@);
        }
    }
    false
}

/// Files per page when listing a mod's files.
pub const CF_FILES_PAGE_SIZE: u32 = 50;

/// Listing stops once the next page index passes this.
pub const CF_FILES_INDEX_LIMIT: i32 = 5000;

/// Walk over the paged file list of one mod, keeping the files that match the target.
pub struct CfFilesScan {
    /// Index of the next page to request.
    pub index: i32,
    /// Matching files seen so far, in listing order.
    pub candidates: Vec<CfFileSummary>,
}

pub open spec fn views_of(v: Seq<CfFileSummary>) -> Seq<CfFileSummaryView> {
    v.map_values(|f: CfFileSummary| f@)
}

/// `k` is the first of the files with the latest `file_date` (what a stable sort by
/// descending date puts first).
pub open spec fn is_newest(c: Seq<CfFileSummaryView>, k: int) -> bool {
    &&& 0 <= k < c.len()
    &&& forall|j: int| 0 <= j < c.len() ==> !lex_lt(c[k].file_date, #[trigger] c[j].file_date)
    &&& forall|j: int| 0 <= j < k ==> lex_lt(#[trigger] c[j].file_date, c[k].file_date)
}

pub open spec fn page_data(page: DataNode) -> Seq<DataNode> {
    array_field(page, "data"@)
}

impl CfFilesScan {
    pub fn new() -> (r: Self)
        ensures
            r.index == 0,
            r.candidates@.len() == 0,
    {
        CfFilesScan { index: 0, candidates: Vec::new() }
    }

    /// Takes in one page of the listing (a response to a request at `self.index`) and
    /// says whether another page is to be requested.
    pub fn on_page(
        &mut self,
        page: &DataNode,
        minecraft_version: &str,
        loader: Option<CfModLoader>,
    ) -> (more: bool)
        requires
            0 <= old(self).index,
            old(self).index + page_data(*page).len() <= i32::MAX,
        ensures
            page_data(*page).len() == 0 ==> !more && final(self).index == old(self).index
                && views_of(final(self).candidates@) == views_of(old(self).candidates@),
            page_data(*page).len() > 0 ==> final(self).index == old(self).index + page_data(
                *page,
            ).len() && views_of(final(self).candidates@) == views_of(old(self).candidates@)
                + page_candidates(page_data(*page), minecraft_version@, loader) && more == (
            page_data(*page).len() >= CF_FILES_PAGE_SIZE && final(self).index
                <= CF_FILES_INDEX_LIMIT),
    {
        let data = array_field_exec(page, "data");
        if data.len() == 0 {
            return false;
        }
        let ghost start = views_of(self.candidates@);
        let mut i: usize = 0;
        while i < data.len()
            invariant
                data@ == page_data(*page),
                i <= data@.len(),
                views_of(self.candidates@) == start + page_candidates(
                    data@.subrange(0, i as int),
                    minecraft_version@,
                    loader,
                ),
                self.index == old(self).index,
                start == views_of(old(self).candidates@),
            decreases data@.len() - i,
        {
            proof {
                assert(data@.subrange(0, i + 1).drop_last() == data@.subrange(0, i as int));
            }
            let f = file_summary_from(&data[i]);
            let listed = lists_version(&f.game_versions, minecraft_version);
            let loader_ok = match loader {
                Some(w) => f.mod_loader == w.id(),
                None => true,
            };
            if listed && loader_ok {
                let ghost before = self.candidates@;
                self.candidates.push(f);
                proof {
                    assert(views_of(self.candidates@) =~= views_of(before).push(f@));
                }
            }
            i = i + 1;
        }
        proof {
            assert(data@.subrange(0, data@.len() as int) == data@);
        }
        let n: usize = data.len();
        proof {
            assert(n <= i32::MAX);
        }
        let step: i32 = n as i32;
        self.index = self.index + step;
        data.len() >= 50 && self.index <= 5000
    }

    /// The newest matching file: the first one with the latest `file_date`.
    pub fn finish(self) -> (r: Option<CfFileSummary>)
        ensures
            self.candidates@.len() == 0 ==> r is None,
            self.candidates@.len() > 0 ==> (r matches Some(f) && exists|k: int|
                is_newest(views_of(self.candidates@), k) && f@ == views_of(self.candidates@)[k]),
    {
        let c = self.candidates;
        if c.len() == 0 {
            return None;
        }
        let ghost cv = views_of(c@);
        let mut best: usize = 0;
        let mut j: usize = 1;
        proof {
            lemma_lex_order(cv[0].file_date, cv[0].file_date, cv[0].file_date);
            assert(cv.subrange(0, 1)[0] == cv[0]);
        }
        while j < c.len()
            invariant
                cv == views_of(c@),
                1 <= j <= c@.len(),
                is_newest(cv.subrange(0, j as int), best as int),
            decreases c@.len() - j,
        {
            let later = str_lt(c[best].file_date.as_str(), c[j].file_date.as_str());
            proof {
                let p = cv.subrange(0, j as int);
                let q = cv.subrange(0, j + 1);
                assert forall|m: int| 0 <= m < j + 1 implies q[m] == cv[m] by {}
                if later {
                    assert forall|m: int| 0 <= m < j + 1 implies !lex_lt(q[j as int].file_date, #[trigger] q[m].file_date) by {
                        lemma_lex_order(cv[m].file_date, cv[best as int].file_date, cv[j as int].file_date);
                        lemma_lex_order(cv[j as int].file_date, cv[m].file_date, cv[best as int].file_date);
                        if m < j {
                            assert(p[m] == cv[m]);
                        }
                    }
                    assert forall|m: int| 0 <= m < j implies lex_lt(#[trigger] q[m].file_date, q[j as int].file_date) by {
                        assert(p[m] == cv[m]);
                        lemma_lex_order(cv[m].file_date, cv[best as int].file_date, cv[j as int].file_date);
                        lemma_lex_order(cv[best as int].file_date, cv[m].file_date, cv[j as int].file_date);
                    }
                } else {
                    assert forall|m: int| 0 <= m < j + 1 implies !lex_lt(q[best as int].file_date, #[trigger] q[m].file_date) by {
                        if m < j {
                            assert(p[m] == cv[m]);
                        }
                    }
                    assert forall|m: int| 0 <= m < best implies lex_lt(#[trigger] q[m].file_date, q[best as int].file_date) by {
                        assert(p[m] == cv[m]);
                    }
                }
            }
            if later {
                best = j;
            }
            j = j + 1;
        }
        proof {
            assert(cv.subrange(0, c@.len() as int) == cv);
        }
        let mut c = c;
        let f = c.swap_remove(best);
        Some(f)
    }
}

/// Root of the CurseForge v1 API.
pub open spec fn cf_base() -> Seq<char> {
    "https://api.curseforge.com/v1"@
}

/// `POST {base}/fingerprints/432`.
pub fn fingerprints_url() -> (r: String)
    ensures
        r@ == cf_base() + "/fingerprints/"@ + int_text(432),
{
    let id = i32_text(MINECRAFT_GAME_ID);
    let mut out: Vec<char> = Vec::new();
    append_str(&mut out, "https://api.curseforge.com/v1");
    append_str(&mut out, "/fingerprints/");
    append_str(&mut out, id.as_str());
    string_of(out.as_slice())
}

/// `GET {base}/mods/search`.
pub fn search_url() -> (r: String)
    ensures
        r@ == cf_base() + "/mods/search"@,
{
    let mut out: Vec<char> = Vec::new();
    append_str(&mut out, "https://api.curseforge.com/v1");
    append_str(&mut out, "/mods/search");
    string_of(out.as_slice())
}

/// `GET {base}/mods/{id}/files`.
pub fn mod_files_url(mod_id: i32) -> (r: String)
    ensures
        r@ == cf_base() + "/mods/"@ + int_text(mod_id as int) + "/files"@,
{
    let id = i32_text(mod_id);
    let mut out: Vec<char> = Vec::new();
    append_str(&mut out, "https://api.curseforge.com/v1");
    append_str(&mut out, "/mods/");
    append_str(&mut out, id.as_str());
    append_str(&mut out, "/files");
    string_of(out.as_slice())
}

/// `GET {base}/mods/{id}`.
pub fn mod_url(mod_id: i32) -> (r: String)
    ensures
        r@ == cf_base() + "/mods/"@ + int_text(mod_id as int),
{
    let id = i32_text(mod_id);
    let mut out: Vec<char> = Vec::new();
    append_str(&mut out, "https://api.curseforge.com/v1");
    append_str(&mut out, "/mods/");
    append_str(&mut out, id.as_str());
    string_of(out.as_slice())
}

/// The query of a mod search: the game, the text searched and the page size.
pub fn search_query(search: &str, page_size: u32) -> (r: Vec<(String, String)>)
    ensures
        r@.len() == 3,
        r@[0].0@ == "gameId"@ && r@[0].1@ == int_text(MINECRAFT_GAME_ID as int),
        r@[1].0@ == "searchFilter"@ && r@[1].1@ == search@,
        r@[2].0@ == "pageSize"@ && r@[2].1@ == dec_text(page_size as nat),
{
    let mut q: Vec<(String, String)> = Vec::new();
    q.push((String::from_str("gameId"), i32_text(MINECRAFT_GAME_ID)));
    q.push((String::from_str("searchFilter"), String::from_str(search)));
    q.push((String::from_str("pageSize"), u32_text(page_size)));
    q
}

/// The query of one page of a mod's files: where the page starts and its size.
pub fn files_query(index: i32) -> (r: Vec<(String, String)>)
    ensures
        r@.len() == 2,
        r@[0].0@ == "index"@ && r@[0].1@ == int_text(index as int),
        r@[1].0@ == "pageSize"@ && r@[1].1@ == dec_text(CF_FILES_PAGE_SIZE as nat),
{
    let mut q: Vec<(String, String)> = Vec::new();
    q.push((String::from_str("index"), i32_text(index)));
    q.push((String::from_str("pageSize"), u32_text(CF_FILES_PAGE_SIZE)));
    q
}

} // verus!
