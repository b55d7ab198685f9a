//! Strict Minecraft version parsing, comparison and filename matching.
use std::cmp::Ordering;
use vstd::prelude::*;
use crate::text::{
    ascii_lower, lemma_lower_trim_idempotent, lemma_trim, lower_char, chars_eq, chars_ends_with, chars_of, ends_with, is_ascii_alnum, is_ascii_char,
    is_ascii_digit, ix, lower_chars, slice_chars, string_of, trim, trim_chars,
};

verus! {

/// `normalize_mc`: trimmed and ASCII-lowercased.
pub open spec fn normalized(s: Seq<char>) -> Seq<char> {
    ascii_lower(trim(s))
}

/// `str::split(sep)`: the pieces between separators (an empty input gives one empty piece).
pub open spec fn split_on(s: Seq<char>, sep: char) -> Seq<Seq<char>>
    decreases s.len(),
{
    if s.len() == 0 {
        seq![Seq::<char>::empty()]
    } else {
        let prev = split_on(s.drop_last(), sep);
        if s.last() == sep {
            prev.push(Seq::<char>::empty())
        } else {
            prev.update(prev.len() - 1, prev.last().push(s.last()))
        }
    }
}

pub open spec fn digit_value(c: char) -> nat {
    ((c as u32) - ('0' as u32)) as nat
}

/// Decimal value of a string of ASCII digits.
pub open spec fn dec_value(s: Seq<char>) -> nat
    decreases s.len(),
{
    if s.len() == 0 {
        0
    } else {
        dec_value(s.drop_last()) * 10 + digit_value(s.last())
    }
}

/// The shape that `mc_version_components` accepts before parsing numbers:
/// non-empty, only digits and dots, no leading, trailing or doubled dot.
pub open spec fn version_shape(n: Seq<char>) -> bool {
    &&& n.len() > 0
    &&& forall|i: int| 0 <= i < n.len() ==> (is_ascii_digit(#[trigger] n[i]) || n[i] == '.')
    &&& n[0] != '.'
    &&& n.last() != '.'
    &&& forall|i: int| 0 <= i < n.len() - 1 ==> !(#[trigger] n[i] == '.' && n[i + 1] == '.')
}

/// `mc_version_components`: the dot-separated numbers of the normalized input,
/// `None` when the shape is wrong or a number does not fit in `u32`.
pub open spec fn components(s: Seq<char>) -> Option<Seq<u32>> {
    let n = normalized(s);
    let parts = split_on(n, '.');
    if version_shape(n) && forall|k: int| 0 <= k < parts.len() ==> dec_value(#[trigger] parts[k])
        <= u32::MAX {
        Some(parts.map_values(|p: Seq<char>| dec_value(p) as u32))
    } else {
        None
    }
}

/// `same_mc_version`: equal components when both parse, otherwise equal normalized text.
pub open spec fn same_version(a: Seq<char>, b: Seq<char>) -> bool {
    match (components(a), components(b)) {
        (Some(x), Some(y)) => x == y,
        _ => normalized(a) == normalized(b),
    }
}

/// Component `i`, or 0 past the end.
pub open spec fn padded(a: Seq<u32>, i: int) -> u32 {
    if 0 <= i < a.len() {
        a[i]
    } else {
        0
    }
}

pub open spec fn width(a: Seq<u32>, b: Seq<u32>) -> int {
    if a.len() >= b.len() {
        a.len() as int
    } else {
        b.len() as int
    }
}

/// Lexicographic order of zero-padded component lists from position `i`.
pub open spec fn order_from(a: Seq<u32>, b: Seq<u32>, i: int) -> Ordering
    decreases width(a, b) - i,
{
    if i >= width(a, b) {
        Ordering::Equal
    } else if padded(a, i) < padded(b, i) {
        Ordering::Less
    } else if padded(a, i) > padded(b, i) {
        Ordering::Greater
    } else {
        order_from(a, b, i + 1)
    }
}

/// `compare_mc_versions`.
pub open spec fn version_order(a: Seq<char>, b: Seq<char>) -> Option<Ordering> {
    match (components(a), components(b)) {
        (Some(x), Some(y)) => Some(order_from(x, y, 0)),
        _ => None,
    }
}

/// `str::trim_end_matches(p)` for a non-empty string pattern: repeated suffix removal.
pub open spec fn trim_end_str(s: Seq<char>, p: Seq<char>) -> Seq<char>
    decreases s.len(),
{
    if p.len() > 0 && ends_with(s, p) {
        trim_end_str(s.subrange(0, s.len() - p.len()), p)
    } else {
        s
    }
}

/// Characters that may delimit a version token inside a filename.
pub open spec fn token_boundary(c: char) -> bool {
    !is_ascii_alnum(c) && c != '.'
}

pub open spec fn occurs_at(h: Seq<char>, n: Seq<char>, i: int) -> bool {
    0 <= i && i + n.len() <= h.len() && h.subrange(i, i + n.len()) == n
}

pub open spec fn bounded_at(h: Seq<char>, n: Seq<char>, i: int) -> bool {
    &&& (i == 0 || token_boundary(h[i - 1]))
    &&& (i + n.len() >= h.len() || token_boundary(h[i + n.len()]))
}

/// `needle` occurs in `haystack` delimited by token boundaries (or the ends).
pub open spec fn contains_bounded_spec(h: Seq<char>, n: Seq<char>) -> bool {
    n.len() > 0 && exists|i: int| occurs_at(h, n, i) && #[trigger] bounded_at(h, n, i)
}

/// The byte-offset search of `contains_bounded` slices in the middle of a character
/// (and panics) exactly when the needle starts with a non-ASCII character and its first
/// occurrence is not delimited.
pub open spec fn contains_bounded_panics(h: Seq<char>, n: Seq<char>) -> bool {
    &&& n.len() > 0
    &&& !is_ascii_char(n[0])
    &&& exists|i: int|
        #![trigger occurs_at(h, n, i)]
        occurs_at(h, n, i) && !bounded_at(h, n, i) && forall|j: int|
            0 <= j < i ==> !#[trigger] occurs_at(h, n, j)
}

/// The lowercased filename stem that `filename_declares_mc` searches.
pub open spec fn filename_stem(name: Seq<char>) -> Seq<char> {
    ascii_lower(trim_end_str(trim_end_str(trim(name), seq!['.', 'j', 'a', 'r']), seq!['.', 'z', 'i', 'p']))
}

pub open spec fn mc_prefixed(t: Seq<char>) -> Seq<char> {
    seq!['m', 'c'] + t
}

/// `filename_declares_mc`.
pub open spec fn declares_mc(name: Seq<char>, target: Seq<char>) -> bool {
    let stem = filename_stem(name);
    let t = normalized(target);
    t.len() > 0 && (contains_bounded_spec(stem, mc_prefixed(t)) || contains_bounded_spec(stem, t))
}

/// Inputs on which `filename_declares_mc` panics.
pub open spec fn declares_mc_panics(name: Seq<char>, target: Seq<char>) -> bool {
    let stem = filename_stem(name);
    let t = normalized(target);
    t.len() > 0 && !contains_bounded_spec(stem, mc_prefixed(t)) && contains_bounded_panics(stem, t)
}

/// `Ordering::reverse`.
pub open spec fn flipped(o: Ordering) -> Ordering {
    match o {
        Ordering::Less => Ordering::Greater,
        Ordering::Equal => Ordering::Equal,
        Ordering::Greater => Ordering::Less,
    }
}

proof fn lemma_order_swap(a: Seq<u32>, b: Seq<u32>, i: int)
    ensures
        order_from(b, a, i) == flipped(order_from(a, b, i)),
    decreases width(a, b) - i,
{
    if i < width(a, b) {
        lemma_order_swap(a, b, i + 1);
    }
}

proof fn lemma_order_refl(a: Seq<u32>, i: int)
    ensures
        order_from(a, a, i) == Ordering::Equal,
    decreases width(a, a) - i,
{
    if i < width(a, a) {
        lemma_order_refl(a, i + 1);
    }
}

proof fn lemma_order_trans(a: Seq<u32>, b: Seq<u32>, c: Seq<u32>, i: int)
    requires
        order_from(a, b, i) == Ordering::Less,
        order_from(b, c, i) == Ordering::Less,
    ensures
        order_from(a, c, i) == Ordering::Less,
    decreases width(a, b) + width(b, c) - 2 * i,
{
    if padded(a, i) == padded(b, i) && padded(b, i) == padded(c, i) {
        lemma_order_trans(a, b, c, i + 1);
    }
}

/// Normalizing a normalized version changes nothing.
pub proof fn law_normalize_idempotent(s: Seq<char>)
    ensures
        normalized(normalized(s)) == normalized(s),
{
    lemma_lower_trim_idempotent(s);
}

/// A version is the same version as itself.
pub proof fn law_same_version_reflexive(a: Seq<char>)
    ensures
        same_version(a, a),
{
}

/// Being the same version does not depend on the order of the two.
pub proof fn law_same_version_symmetric(a: Seq<char>, b: Seq<char>)
    ensures
        same_version(a, b) == same_version(b, a),
{
}

/// Comparing the other way round gives the reverse answer.
pub proof fn law_compare_antisymmetric(a: Seq<char>, b: Seq<char>)
    ensures
        version_order(b, a) == match version_order(a, b) {
            Some(o) => Some(flipped(o)),
            None => None,
        },
{
    if components(a) is Some && components(b) is Some {
        lemma_order_swap(components(a)->0, components(b)->0, 0);
    }
}

/// Two parsable versions that are the same compare as equal.
pub proof fn law_same_version_compares_equal(a: Seq<char>, b: Seq<char>)
    requires
        components(a) is Some,
        components(b) is Some,
        same_version(a, b),
    ensures
        version_order(a, b) == Some(Ordering::Equal),
{
    lemma_order_refl(components(a)->0, 0);
}

/// Version order is transitive.
pub proof fn law_compare_transitive(a: Seq<char>, b: Seq<char>, c: Seq<char>)
    requires
        version_order(a, b) == Some(Ordering::Less),
        version_order(b, c) == Some(Ordering::Less),
    ensures
        version_order(a, c) == Some(Ordering::Less),
{
    lemma_order_trans(components(a)->0, components(b)->0, components(c)->0, 0);
}

/// The trimmed text of a parsable version is made of ASCII digits and dots and parses to
/// the same components.
pub proof fn lemma_parsable_text(v: Seq<char>)
    requires
        components(v) is Some,
    ensures
        trim(v).len() > 0,
        forall|i: int|
            0 <= i < trim(v).len() ==> is_ascii_digit(#[trigger] trim(v)[i]) || trim(v)[i] == '.',
        components(trim(v)) == components(v),
{
    let w = trim(v);
    let n = normalized(v);
    lemma_trim(v);
    assert(n == ascii_lower(w));
    assert(version_shape(n));
    assert forall|i: int| 0 <= i < w.len() implies is_ascii_digit(#[trigger] w[i]) || w[i]
        == '.' by {
        assert(n[i] == lower_char(w[i]));
        assert(is_ascii_digit(n[i]) || n[i] == '.');
    }
    assert(normalized(w) == n);
}

proof fn lemma_order_zero_ext(a: Seq<u32>, i: int)
    requires
        0 <= i,
    ensures
        order_from(a, a.push(0u32), i) == Ordering::Equal,
    decreases width(a, a.push(0u32)) - i,
{
    if i < width(a, a.push(0u32)) {
        assert(padded(a, i) == padded(a.push(0u32), i));
        lemma_order_zero_ext(a, i + 1);
    }
}

/// Comparison pads the shorter version with zeros and sameness does not: a version and
/// the same version with one more `.0` compare as equal but are not the same version.
pub proof fn law_trailing_zero(a: Seq<char>, b: Seq<char>)
    requires
        components(a) is Some,
        components(b) == Some(components(a)->0.push(0u32)),
    ensures
        version_order(a, b) == Some(Ordering::Equal),
        !same_version(a, b),
{
    lemma_order_zero_ext(components(a)->0, 0);
    assert(components(a)->0.len() != components(b)->0.len());
}

fn normalize_chars(v: &[char]) -> (r: Vec<char>)
    ensures
        r@ == normalized(v@),
{
    let t = trim_chars(v);
    lower_chars(t.as_slice())
}

/// Normalizes a Minecraft version string: trimmed and ASCII-lowercased.
pub fn normalize_mc(input: &str) -> (r: String)
    ensures
        r@ == normalized(input@),
{
    let v = chars_of(input);
    let n = normalize_chars(v.as_slice());
    string_of(n.as_slice())
}

proof fn lemma_split_push(s: Seq<char>, c: char, sep: char)
    ensures
        split_on(s.push(c), sep) == (if c == sep {
            split_on(s, sep).push(Seq::<char>::empty())
        } else {
            split_on(s, sep).update(
                split_on(s, sep).len() - 1,
                split_on(s, sep).last().push(c),
            )
        }),
{
    assert(s.push(c).drop_last() == s);
}

proof fn lemma_split_nonempty(s: Seq<char>, sep: char)
    ensures
        split_on(s, sep).len() >= 1,
    decreases s.len(),
{
    if s.len() > 0 {
        lemma_split_nonempty(s.drop_last(), sep);
    }
}

proof fn lemma_dec_push(s: Seq<char>, c: char)
    ensures
        dec_value(s.push(c)) == dec_value(s) * 10 + digit_value(c),
{
    assert(s.push(c).drop_last() == s);
}

/// Checks the shape of an already normalized version string.
fn check_shape(n: &[char]) -> (r: bool)
    ensures
        r == version_shape(n@),
{
    if n.len() == 0 {
        return false;
    }
    let mut i: usize = 0;
    while i < n.len()
        invariant
            n@.len() > 0,
            i <= n@.len(),
            forall|k: int| 0 <= k < i ==> (is_ascii_digit(#[trigger] n@[k]) || n@[k] == '.'),
            forall|k: int| 0 <= k < i - 1 ==> !(#[trigger] n@[k] == '.' && n@[k + 1] == '.'),
        decreases n@.len() - i,
    {
        let c = n[i];
        if !(('0' <= c && c <= '9') || c == '.') {
            return false;
        }
        if i > 0 && c == '.' && n[i - 1] == '.' {
            proof {
                assert(n@[i - 1] == '.' && n@[(i - 1) + 1] == '.');
            }
            return false;
        }
        i = i + 1;
    }
    n[0] != '.' && n[n.len() - 1] != '.'
}

spec fn prefix_parts(s: Seq<char>, i: int) -> Seq<Seq<char>> {
    split_on(s.subrange(0, i), '.')
}

/// Parses the dot-separated numbers of a version whose shape is already checked.
fn parse_parts(n: &[char]) -> (r: Option<Vec<u32>>)
    requires
        version_shape(n@),
    ensures
        r matches Some(v) ==> forall|k: int|
            0 <= k < split_on(n@, '.').len() ==> dec_value(#[trigger] split_on(n@, '.')[k])
                <= u32::MAX,
        r matches Some(v) ==> v@ == split_on(n@, '.').map_values(|p: Seq<char>| dec_value(p) as u32),
        r is None ==> !(forall|k: int|
            0 <= k < split_on(n@, '.').len() ==> dec_value(#[trigger] split_on(n@, '.')[k])
                <= u32::MAX),
{
    let ghost s = n@;
    let ghost cap: nat = 0x1_0000_0000;
    let mut vals: Vec<u32> = Vec::new();
    let mut bad = false;
    let mut cur: u64 = 0;
    let mut i: usize = 0;
    proof {
        assert(s.subrange(0, 0) == Seq::<char>::empty());
    }
    while i < n.len()
        invariant
            s == n@,
            version_shape(s),
            i <= s.len(),
            cap == 0x1_0000_0000,
            prefix_parts(s, i as int).len() >= 1,
            bad == exists|k: int|
                0 <= k < prefix_parts(s, i as int).len() - 1 && dec_value(
                    #[trigger] prefix_parts(s, i as int)[k],
                ) > u32::MAX,
            !bad ==> vals@ == prefix_parts(s, i as int).take(
                prefix_parts(s, i as int).len() - 1,
            ).map_values(|p: Seq<char>| dec_value(p) as u32),
            cur == (if dec_value(prefix_parts(s, i as int).last()) < cap {
                dec_value(prefix_parts(s, i as int).last())
            } else {
                cap
            }),
        decreases s.len() - i,
    {
        let c = n[i];
        let ghost pre = s.subrange(0, i as int);
        let ghost sp0 = prefix_parts(s, i as int);
        proof {
            assert(s.subrange(0, i + 1) == pre.push(c));
            lemma_split_push(pre, c, '.');
            lemma_split_nonempty(pre, '.');
        }
        if c == '.' {
            proof {
                let sp1 = prefix_parts(s, i + 1);
                assert(sp1 == sp0.push(Seq::<char>::empty()));
                assert forall|k: int| 0 <= k < sp0.len() implies #[trigger] sp1[k] == sp0[k] by {}
                if bad {
                    let k0 = choose|k: int|
                        0 <= k < sp0.len() - 1 && dec_value(#[trigger] prefix_parts(s, i as int)[k])
                            > u32::MAX;
                    assert(prefix_parts(s, i + 1)[k0] == sp0[k0]);
                }
            }
            if cur >= 0x1_0000_0000 {
                proof {
                    assert(prefix_parts(s, i + 1)[sp0.len() - 1] == sp0.last());
                    assert(dec_value(prefix_parts(s, i + 1)[sp0.len() - 1]) > u32::MAX);
                }
                bad = true;
            } else {
                if !bad {
                    vals.push(cur as u32);
                    proof {
                        let sp1 = prefix_parts(s, i + 1);
                        assert(sp1.take(sp1.len() - 1) == sp0);
                        assert(sp0 == sp0.take(sp0.len() - 1).push(sp0.last()));
                        assert(sp1.take(sp1.len() - 1).map_values(|p: Seq<char>| dec_value(p) as u32)
                            =~= sp0.take(sp0.len() - 1).map_values(|p: Seq<char>| dec_value(p) as u32).push(
                            cur as u32));
                        assert forall|k: int| 0 <= k < sp1.len() - 1 implies dec_value(#[trigger] prefix_parts(s, i + 1)[k]) <= u32::MAX by {
                            assert(sp1[k] == sp0[k]);
                        }
                    }
                }
            }
            proof {
                assert(dec_value(Seq::<char>::empty()) == 0);
            }
            cur = 0;
        } else {
            let d: u64 = (c as u64) - ('0' as u64);
            proof {
                assert(is_ascii_digit(s[i as int]));
                lemma_dec_push(sp0.last(), c);
            }
            if cur >= 0x1_0000_0000 {
                cur = 0x1_0000_0000;
            } else {
                let nv = cur * 10 + d;
                cur = if nv >= 0x1_0000_0000 { 0x1_0000_0000 } else { nv };
            }
            proof {
                let sp1 = prefix_parts(s, i + 1);
                assert(sp1.len() == sp0.len());
                assert(sp1.take(sp1.len() - 1) =~= sp0.take(sp0.len() - 1));
                assert forall|k: int| 0 <= k < sp1.len() - 1 implies #[trigger] sp1[k] == sp0[k] by {}
                if bad {
                    let k0 = choose|k: int| 0 <= k < sp0.len() - 1 && dec_value(#[trigger] prefix_parts(s, i as int)[k]) > u32::MAX;
                    assert(sp1[k0] == sp0[k0]);
                } else {
                    assert forall|k: int| 0 <= k < sp1.len() - 1 implies dec_value(#[trigger] prefix_parts(s, i + 1)[k]) <= u32::MAX by {
                        assert(sp1[k] == sp0[k]);
                    }
                }
            }
        }
        i = i + 1;
    }
    proof {
        assert(s.subrange(0, s.len() as int) == s);
    }
    let ghost sp = split_on(s, '.');
    if bad || cur >= 0x1_0000_0000 {
        proof {
            if !bad {
                assert(dec_value(sp[sp.len() - 1]) > u32::MAX);
            }
        }
        return None;
    }
    vals.push(cur as u32);
    proof {
        assert forall|k: int| 0 <= k < sp.len() implies dec_value(#[trigger] sp[k]) <= u32::MAX by {
            if k < sp.len() - 1 {
            }
        }
        assert(sp == sp.take(sp.len() - 1).push(sp.last()));
        assert(vals@ =~= sp.map_values(|p: Seq<char>| dec_value(p) as u32));
    }
    Some(vals)
}

pub(crate) fn components_chars(v: &[char]) -> (r: Option<Vec<u32>>)
    ensures
        r matches Some(x) ==> components(v@) == Some(x@),
        r is None ==> components(v@) is None,
{
    let n = normalize_chars(v);
    if !check_shape(n.as_slice()) {
        return None;
    }
    parse_parts(n.as_slice())
}

/// Splits a Minecraft version into its numeric components; `None` unless the
/// normalized text is a non-empty dot-separated list of `u32` numbers.
pub fn mc_version_components(input: &str) -> (r: Option<Vec<u32>>)
    ensures
        r matches Some(x) ==> components(input@) == Some(x@),
        r is None ==> components(input@) is None,
{
    let v = chars_of(input);
    components_chars(v.as_slice())
}

fn u32s_eq(a: &[u32], b: &[u32]) -> (r: bool)
    ensures
        r == (a@ == b@),
{
    if a.len() != b.len() {
        return false;
    }
    let mut i: usize = 0;
    while i < a.len()
        invariant
            a@.len() == b@.len(),
            i <= a@.len(),
            forall|k: int| 0 <= k < i ==> a@[k] == b@[k],
        decreases a@.len() - i,
    {
        if a[i] != b[i] {
            return false;
        }
        i = i + 1;
    }
    proof {
        assert(a@ =~= b@);
    }
    true
}

pub(crate) fn same_version_chars(a: &[char], b: &[char]) -> (r: bool)
    ensures
        r == same_version(a@, b@),
{
    match (components_chars(a), components_chars(b)) {
        (Some(x), Some(y)) => u32s_eq(x.as_slice(), y.as_slice()),
        (ca, cb) => {
            let na = normalize_chars(a);
            let nb = normalize_chars(b);
            chars_eq(na.as_slice(), nb.as_slice())
        },
    }
}

/// Two Minecraft versions are the same release (`1.21.1` is not `1.21.11`).
pub fn same_mc_version(a: &str, b: &str) -> (r: bool)
    ensures
        r == same_version(a@, b@),
{
    let va = chars_of(a);
    let vb = chars_of(b);
    same_version_chars(va.as_slice(), vb.as_slice())
}

fn order_components(a: &[u32], b: &[u32]) -> (r: Ordering)
    ensures
        r == order_from(a@, b@, 0),
{
    let w = if a.len() >= b.len() { a.len() } else { b.len() };
    let mut idx: usize = 0;
    while idx < w
        invariant
            w == width(a@, b@),
            idx <= w,
            order_from(a@, b@, ix(idx)) == order_from(a@, b@, 0),
        decreases w - idx,
    {
        let lhs = if idx < a.len() { a[idx] } else { 0 };
        let rhs = if idx < b.len() { b[idx] } else { 0 };
        if lhs < rhs {
            return Ordering::Less;
        }
        if lhs > rhs {
            return Ordering::Greater;
        }
        idx = idx + 1;
    }
    Ordering::Equal
}

pub(crate) fn compare_chars(a: &[char], b: &[char]) -> (r: Option<Ordering>)
    ensures
        r == version_order(a@, b@),
{
    let x = match components_chars(a) {
        Some(x) => x,
        None => return None,
    };
    let y = match components_chars(b) {
        Some(y) => y,
        None => return None,
    };
    Some(order_components(x.as_slice(), y.as_slice()))
}

/// Orders two Minecraft versions component-wise, missing components counting as 0;
/// `None` when either does not parse.
pub fn compare_mc_versions(a: &str, b: &str) -> (r: Option<Ordering>)
    ensures
        r == version_order(a@, b@),
{
    let va = chars_of(a);
    let vb = chars_of(b);
    compare_chars(va.as_slice(), vb.as_slice())
}

fn is_token_boundary(ch: char) -> (r: bool)
    ensures
        r == token_boundary(ch),
{
    !(('0' <= ch && ch <= '9') || ('a' <= ch && ch <= 'z') || ('A' <= ch && ch <= 'Z')) && ch
        != '.'
}

pub(crate) fn occurs_at_exec(h: &[char], n: &[char], i: usize) -> (r: bool)
    requires
        i + n@.len() <= h@.len(),
    ensures
        r == occurs_at(h@, n@, i as int),
{
    let mut k: usize = 0;
    while k < n.len()
        invariant
            i + n@.len() <= h@.len(),
            h.len() == h@.len(),
            k <= n@.len(),
            forall|j: int| 0 <= j < k ==> h@[i + j] == n@[j],
        decreases n@.len() - k,
    {
        if h[i + k] != n[k] {
            proof {
                assert(h@.subrange(i as int, i + n@.len())[k as int] != n@[k as int]);
            }
            return false;
        }
        k = k + 1;
    }
    proof {
        assert(h@.subrange(i as int, i + n@.len()) =~= n@);
    }
    true
}

fn contains_bounded(haystack: &[char], needle: &[char]) -> (r: bool)
    requires
        !contains_bounded_panics(haystack@, needle@),
    ensures
        r == contains_bounded_spec(haystack@, needle@),
{
    if needle.len() == 0 {
        return false;
    }
    if needle.len() > haystack.len() {
        proof {
            assert forall|i: int| !#[trigger] occurs_at(haystack@, needle@, i) by {}
        }
        return false;
    }
    let last = haystack.len() - needle.len();
    let mut i: usize = 0;
    loop
        invariant
            needle@.len() > 0,
            haystack.len() == haystack@.len(),
            last + needle@.len() == haystack@.len(),
            i <= last,
            forall|j: int|
                0 <= j < i ==> !(occurs_at(haystack@, needle@, j) && #[trigger] bounded_at(
                    haystack@,
                    needle@,
                    j,
                )),
        decreases last - i,
    {
        if occurs_at_exec(haystack, needle, i) {
            let start_ok = i == 0 || is_token_boundary(haystack[i - 1]);
            let end_idx = i + needle.len();
            let end_ok = end_idx >= haystack.len() || is_token_boundary(haystack[end_idx]);
            if start_ok && end_ok {
                proof {
                    assert(occurs_at(haystack@, needle@, i as int) && bounded_at(
                        haystack@,
                        needle@,
                        i as int,
                    ));
                }
                return true;
            }
        }
        if i == last {
            proof {
                assert forall|j: int|
                    !(occurs_at(haystack@, needle@, j) && #[trigger] bounded_at(
                        haystack@,
                        needle@,
                        j,
                    )) by {
                    if j > i {
                        assert(!occurs_at(haystack@, needle@, j));
                    }
                }
            }
            return false;
        }
        i = i + 1;
    }
}

fn trim_end_str_chars(v: &[char], p: &[char]) -> (r: Vec<char>)
    requires
        p@.len() > 0,
    ensures
        r@ == trim_end_str(v@, p@),
{
    let mut cur: Vec<char> = slice_chars(v, 0, v.len());
    proof {
        assert(v@.subrange(0, v@.len() as int) == v@);
    }
    while chars_ends_with(cur.as_slice(), p)
        invariant
            p@.len() > 0,
            trim_end_str(cur@, p@) == trim_end_str(v@, p@),
        decreases cur@.len(),
    {
        let l = cur.len() - p.len();
        cur = slice_chars(cur.as_slice(), 0, l);
    }
    cur
}

fn stem_chars(name: &[char]) -> (r: Vec<char>)
    ensures
        r@ == filename_stem(name@),
{
    let t = trim_chars(name);
    let jar: [char; 4] = ['.', 'j', 'a', 'r'];
    let zip: [char; 4] = ['.', 'z', 'i', 'p'];
    proof {
        assert(jar@ == seq!['.', 'j', 'a', 'r']);
        assert(zip@ == seq!['.', 'z', 'i', 'p']);
    }
    let a = trim_end_str_chars(t.as_slice(), jar.as_slice());
    let b = trim_end_str_chars(a.as_slice(), zip.as_slice());
    lower_chars(b.as_slice())
}

pub(crate) fn declares_mc_chars(name: &[char], target: &[char]) -> (r: bool)
    requires
        !declares_mc_panics(name@, target@),
    ensures
        r == declares_mc(name@, target@),
{
    let stem = stem_chars(name);
    let t = normalize_chars(target);
    if t.len() == 0 {
        return false;
    }
    let mut with_mc: Vec<char> = Vec::new();
    with_mc.push('m');
    with_mc.push('c');
    let mut k: usize = 0;
    while k < t.len()
        invariant
            k <= t@.len(),
            with_mc@ == seq!['m', 'c'] + t@.subrange(0, k as int),
        decreases t@.len() - k,
    {
        with_mc.push(t[k]);
        proof {
            assert(t@.subrange(0, k + 1) == t@.subrange(0, k as int).push(t@[k as int]));
        }
        k = k + 1;
    }
    proof {
        assert(t@.subrange(0, t@.len() as int) == t@);
        assert(!is_ascii_char(with_mc@[0]) == false);
    }
    if contains_bounded(stem.as_slice(), with_mc.as_slice()) {
        return true;
    }
    contains_bounded(stem.as_slice(), t.as_slice())
}


fn first_occurrence(h: &[char], n: &[char]) -> (r: Option<usize>)
    ensures
        match r {
            Some(i) => occurs_at(h@, n@, i as int) && forall|j: int|
                0 <= j < i ==> !#[trigger] occurs_at(h@, n@, j),
            None => forall|j: int| !#[trigger] occurs_at(h@, n@, j),
        },
{
    let mut i: usize = 0;
    while i < h.len()
        invariant
            i <= h@.len(),
            h.len() == h@.len(),
            forall|j: int| 0 <= j < i ==> !#[trigger] occurs_at(h@, n@, j),
        decreases h@.len() - i,
    {
        if n.len() <= h.len() - i && occurs_at_exec(h, n, i) {
            return Some(i);
        }
        i = i + 1;
    }
    if n.len() == 0 {
        assert(h@.subrange(h@.len() as int, h@.len() as int) =~= n@);
        return Some(i);
    }
    assert forall|j: int| !#[trigger] occurs_at(h@, n@, j) by {}
    None
}

fn bounded_panics(h: &[char], n: &[char]) -> (r: bool)
    ensures
        r == contains_bounded_panics(h@, n@),
{
    if n.len() == 0 || (n[0] as u32) < 128 {
        return false;
    }
    match first_occurrence(h, n) {
        Some(i) => {
            let start_ok = i == 0 || is_token_boundary(h[i - 1]);
            let end_idx = i + n.len();
            let end_ok = end_idx >= h.len() || is_token_boundary(h[end_idx]);
            if start_ok && end_ok {
                assert forall|k: int|
                    #![trigger occurs_at(h@, n@, k)]
                    occurs_at(h@, n@, k) && !bounded_at(h@, n@, k) implies exists|j: int|
                    0 <= j < k && occurs_at(h@, n@, j) by {
                    if k > i {
                        assert(0 <= i < k && occurs_at(h@, n@, i as int));
                    }
                }
                false
            } else {
                true
            }
        },
        None => false,
    }
}

/// Whether `filename_declares_mc(name, target)` would panic: the cases its `requires`
/// leaves out.
pub fn filename_declares_mc_panics(name: &str, target: &str) -> (r: bool)
    ensures
        r == declares_mc_panics(name@, target@),
{
    let n = chars_of(name);
    let tc = chars_of(target);
    let stem = stem_chars(n.as_slice());
    let t = normalize_chars(tc.as_slice());
    if t.len() == 0 {
        return false;
    }
    let mut with_mc: Vec<char> = Vec::new();
    with_mc.push('m');
    with_mc.push('c');
    let mut k: usize = 0;
    while k < t.len()
        invariant
            k <= t@.len(),
            with_mc@ == seq!['m', 'c'] + t@.subrange(0, k as int),
        decreases t@.len() - k,
    {
        with_mc.push(t[k]);
        proof {
            assert(t@.subrange(0, k + 1) == t@.subrange(0, k as int).push(t@[k as int]));
        }
        k = k + 1;
    }
    proof {
        assert(t@.subrange(0, t@.len() as int) == t@);
        assert(!is_ascii_char(with_mc@[0]) == false);
    }
    if contains_bounded(stem.as_slice(), with_mc.as_slice()) {
        return false;
    }
    bounded_panics(stem.as_slice(), t.as_slice())
}

/// The filename mentions `target` as a delimited token, bare or as `mc<target>`.
pub fn filename_declares_mc(name: &str, target: &str) -> (r: bool)
    requires
        !declares_mc_panics(name@, target@),
    ensures
        r == declares_mc(name@, target@),
{
    let n = chars_of(name);
    let t = chars_of(target);
    declares_mc_chars(n.as_slice(), t.as_slice())
}

} // verus!

verus! {

/// `str::split(sep)` on characters.
pub(crate) fn split_chars(v: &[char], sep: char) -> (r: Vec<Vec<char>>)
    ensures
        r@.len() == split_on(v@, sep).len(),
        forall|k: int| 0 <= k < r@.len() ==> (#[trigger] r@[k])@ == split_on(v@, sep)[k],
{
    let ghost s = v@;
    let mut parts: Vec<Vec<char>> = Vec::new();
    let mut cur: Vec<char> = Vec::new();
    let mut i: usize = 0;
    proof {
        assert(s.subrange(0, 0) == Seq::<char>::empty());
    }
    while i < v.len()
        invariant
            s == v@,
            i <= s.len(),
            parts@.len() + 1 == split_on(s.subrange(0, i as int), sep).len(),
            forall|k: int|
                0 <= k < parts@.len() ==> (#[trigger] parts@[k])@ == split_on(
                    s.subrange(0, i as int),
                    sep,
                )[k],
            cur@ == split_on(s.subrange(0, i as int), sep).last(),
        decreases s.len() - i,
    {
        let c = v[i];
        proof {
            assert(s.subrange(0, i + 1) == s.subrange(0, i as int).push(c));
            lemma_split_push(s.subrange(0, i as int), c, sep);
        }
        if c == sep {
            let done = cur;
            parts.push(done);
            cur = Vec::new();
        } else {
            cur.push(c);
        }
        i = i + 1;
    }
    proof {
        assert(s.subrange(0, s.len() as int) == s);
    }
    parts.push(cur);
    parts
}

} // verus!
