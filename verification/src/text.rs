//! Character-level string helpers shared by the version and filename logic.
//!
//! Strings are modelled by their view, a `Seq<char>`.
use vstd::prelude::*;

verus! {

/// A `usize` read as a mathematical integer.
pub open spec fn ix(x: usize) -> int {
    x as int
}

/// Unicode `White_Space`, the set that `char::is_whitespace` and `str::trim` use.
pub open spec fn is_ws(c: char) -> bool {
    ||| ('\u{9}' <= c && c <= '\u{d}')
    ||| c == ' '
    ||| c == '\u{85}'
    ||| c == '\u{a0}'
    ||| c == '\u{1680}'
    ||| ('\u{2000}' <= c && c <= '\u{200a}')
    ||| c == '\u{2028}'
    ||| c == '\u{2029}'
    ||| c == '\u{202f}'
    ||| c == '\u{205f}'
    ||| c == '\u{3000}'
}

/// First index at or after `i` whose character does not satisfy `p`.
pub open spec fn skip_fwd(s: Seq<char>, i: int, p: spec_fn(char) -> bool) -> int
    decreases s.len() - i,
{
    if 0 <= i < s.len() && p(s[i]) {
        skip_fwd(s, i + 1, p)
    } else {
        i
    }
}

/// Walking back from `j` (never below `lo`), the end of the run of characters satisfying `p`.
pub open spec fn skip_back(s: Seq<char>, lo: int, j: int, p: spec_fn(char) -> bool) -> int
    decreases j - lo,
{
    if lo < j && j <= s.len() && p(s[j - 1]) {
        skip_back(s, lo, j - 1, p)
    } else {
        j
    }
}

pub open spec fn ws_pred() -> spec_fn(char) -> bool {
    |c: char| is_ws(c)
}

pub open spec fn char_pred(x: char) -> spec_fn(char) -> bool {
    |c: char| c == x
}

pub proof fn lemma_skip_fwd(s: Seq<char>, i: int, p: spec_fn(char) -> bool)
    requires
        0 <= i <= s.len(),
    ensures
        i <= skip_fwd(s, i, p) <= s.len(),
        skip_fwd(s, i, p) == s.len() || !p(s[skip_fwd(s, i, p)]),
        forall|k: int| i <= k < skip_fwd(s, i, p) ==> p(#[trigger] s[k]),
    decreases s.len() - i,
{
    if i < s.len() && p(s[i]) {
        lemma_skip_fwd(s, i + 1, p);
    }
}

pub proof fn lemma_skip_back(s: Seq<char>, lo: int, j: int, p: spec_fn(char) -> bool)
    requires
        0 <= lo <= j <= s.len(),
    ensures
        lo <= skip_back(s, lo, j, p) <= j,
        skip_back(s, lo, j, p) == lo || !p(s[skip_back(s, lo, j, p) - 1]),
        forall|k: int| skip_back(s, lo, j, p) <= k < j ==> p(#[trigger] s[k]),
    decreases j - lo,
{
    if lo < j && p(s[j - 1]) {
        lemma_skip_back(s, lo, j - 1, p);
    }
}

/// What `trim` keeps: a contiguous piece that neither starts nor ends with whitespace,
/// everything outside it being whitespace.
pub proof fn lemma_trim(s: Seq<char>)
    ensures
        trim(s).len() <= s.len(),
        trim(s).len() > 0 ==> !is_ws(trim(s)[0]) && !is_ws(trim(s).last()),
        s.len() > 0 && !is_ws(s[0]) ==> trim(s).len() > 0 && trim(s)[0] == s[0],
        (s.len() == 0 || (!is_ws(s[0]) && !is_ws(s.last()))) ==> trim(s) == s,
        trim(trim(s)) == trim(s),
{
    let k = skip_fwd(s, 0, ws_pred());
    lemma_skip_fwd(s, 0, ws_pred());
    let e = skip_back(s, k, s.len() as int, ws_pred());
    lemma_skip_back(s, k, s.len() as int, ws_pred());
    let t = s.subrange(k, e);
    if s.len() > 0 && !is_ws(s[0]) {
        assert(!ws_pred()(s[0]));
        assert(k == 0);
        if e == 0 {
            assert(ws_pred()(s[0]));
        }
    }
    if t.len() > 0 {
        assert(t[0] == s[k]);
        assert(!ws_pred()(s[k]));
        assert(t.last() == s[e - 1]);
        assert(!ws_pred()(s[e - 1]));
        assert(skip_fwd(t, 0, ws_pred()) == 0);
        assert(skip_back(t, 0, t.len() as int, ws_pred()) == t.len());
        assert(t.subrange(0, t.len() as int) == t);
    } else {
        assert(trim(t) =~= t);
    }
    if s.len() == 0 {
        assert(trim(s) =~= s);
    } else if !is_ws(s[0]) && !is_ws(s.last()) {
        assert(!ws_pred()(s[s.len() - 1]));
        assert(e == s.len());
        assert(s.subrange(0, s.len() as int) == s);
    }
}

/// All characters of `s` are whitespace.
pub open spec fn all_ws(s: Seq<char>) -> bool {
    forall|i: int| 0 <= i < s.len() ==> is_ws(#[trigger] s[i])
}

/// Text is its trimmed middle between two runs of whitespace.
pub proof fn lemma_trim_split(s: Seq<char>) -> (ab: (Seq<char>, Seq<char>))
    ensures
        all_ws(ab.0),
        all_ws(ab.1),
        s == ab.0 + trim(s) + ab.1,
{
    let k = skip_fwd(s, 0, ws_pred());
    lemma_skip_fwd(s, 0, ws_pred());
    let e = skip_back(s, k, s.len() as int, ws_pred());
    lemma_skip_back(s, k, s.len() as int, ws_pred());
    let a = s.subrange(0, k);
    let b = s.subrange(e, s.len() as int);
    assert forall|i: int| 0 <= i < a.len() implies is_ws(#[trigger] a[i]) by {
        assert(ws_pred()(s[i]));
    }
    assert forall|i: int| 0 <= i < b.len() implies is_ws(#[trigger] b[i]) by {
        assert(ws_pred()(s[e + i]));
    }
    assert(s =~= a + trim(s) + b);
    (a, b)
}

/// Trimming a piece that neither starts nor ends with whitespace, surrounded by
/// whitespace, gives the piece.
pub proof fn lemma_trim_unique(a: Seq<char>, m: Seq<char>, b: Seq<char>)
    requires
        all_ws(a),
        all_ws(b),
        m.len() > 0,
        !is_ws(m[0]),
        !is_ws(m.last()),
    ensures
        trim(a + m + b) == m,
{
    let s = a + m + b;
    let n: int = s.len() as int;
    let al: int = a.len() as int;
    let me: int = al + m.len();
    let k = skip_fwd(s, 0, ws_pred());
    lemma_skip_fwd(s, 0, ws_pred());
    if k < al {
        assert(is_ws(a[k]));
        assert(ws_pred()(s[k]));
    }
    if k > al {
        assert(ws_pred()(s[al]));
        assert(s[al] == m[0]);
    }
    assert(k == al);
    let e = skip_back(s, k, n, ws_pred());
    lemma_skip_back(s, k, n, ws_pred());
    if e > me {
        assert(s[e - 1] == b[e - 1 - me]);
        assert(is_ws(b[e - 1 - me]));
    }
    if e < me {
        assert(ws_pred()(s[me - 1]));
        assert(s[me - 1] == m.last());
    }
    assert(e == me);
    assert(s.subrange(k, e) =~= m);
}

/// Trimming and lowering ASCII letters, once or twice, gives the same text.
pub proof fn lemma_lower_trim_idempotent(s: Seq<char>)
    ensures
        ascii_lower(trim(ascii_lower(trim(s)))) == ascii_lower(trim(s)),
{
    let t = trim(s);
    let l = ascii_lower(t);
    lemma_trim(s);
    if l.len() > 0 {
        assert(l[0] == lower_char(t[0]));
        assert(l.last() == lower_char(t.last()));
    }
    lemma_trim(l);
    assert(trim(l) == l);
    assert(ascii_lower(l) =~= l);
}

/// `str::trim`: leading and trailing whitespace removed.
pub open spec fn trim(s: Seq<char>) -> Seq<char> {
    let k = skip_fwd(s, 0, ws_pred());
    s.subrange(k, skip_back(s, k, s.len() as int, ws_pred()))
}

/// `str::trim_end_matches(c)` for a single character `c`.
pub open spec fn trim_end_char(s: Seq<char>, c: char) -> Seq<char> {
    s.subrange(0, skip_back(s, 0, s.len() as int, char_pred(c)))
}

/// `char::to_ascii_lowercase`.
pub open spec fn lower_char(c: char) -> char {
    if 'A' <= c && c <= 'Z' {
        ((c as u32) + 32) as char
    } else {
        c
    }
}

/// `str::to_ascii_lowercase`.
pub open spec fn ascii_lower(s: Seq<char>) -> Seq<char> {
    s.map_values(|c: char| lower_char(c))
}

pub open spec fn is_ascii_digit(c: char) -> bool {
    '0' <= c && c <= '9'
}

pub open spec fn is_ascii_alnum(c: char) -> bool {
    ||| is_ascii_digit(c)
    ||| ('a' <= c && c <= 'z')
    ||| ('A' <= c && c <= 'Z')
}

pub open spec fn is_ascii_char(c: char) -> bool {
    (c as u32) < 128
}

/// `s` starts with `p`.
pub open spec fn starts_with(s: Seq<char>, p: Seq<char>) -> bool {
    p.len() <= s.len() && s.subrange(0, p.len() as int) == p
}

/// `s` ends with `p`.
pub open spec fn ends_with(s: Seq<char>, p: Seq<char>) -> bool {
    p.len() <= s.len() && s.subrange(s.len() - p.len(), s.len() as int) == p
}

/// `str::eq_ignore_ascii_case`.
pub open spec fn eq_ignore_case(a: Seq<char>, b: Seq<char>) -> bool {
    ascii_lower(a) == ascii_lower(b)
}

pub fn char_is_ws(c: char) -> (r: bool)
    ensures
        r == is_ws(c),
{
    ('\u{9}' <= c && c <= '\u{d}') || c == ' ' || c == '\u{85}' || c == '\u{a0}' || c
        == '\u{1680}' || ('\u{2000}' <= c && c <= '\u{200a}') || c == '\u{2028}' || c
        == '\u{2029}' || c == '\u{202f}' || c == '\u{205f}' || c == '\u{3000}'
}

pub fn char_lower(c: char) -> (r: char)
    ensures
        r == lower_char(c),
{
    if 'A' <= c && c <= 'Z' {
        let b: u8 = c as u8;
        (b + 32) as char
    } else {
        c
    }
}

/// The characters of `s`, in order.
pub fn chars_of(s: &str) -> (r: Vec<char>)
    ensures
        r@ == s@,
{
    let n = s.unicode_len();
    let mut out: Vec<char> = Vec::new();
    let mut i: usize = 0;
    while i < n
        invariant
            n == s@.len(),
            i <= n,
            out@ == s@.subrange(0, i as int),
        decreases n - i,
    {
        out.push(s.get_char(i));
        i = i + 1;
    }
    out
}

/// Appends a character: `String::push`.
#[verifier::external_body]
fn push_char(s: &mut String, c: char)
    ensures
        final(s)@ == old(s)@.push(c),
{
    s.push(c);
}

/// A `String` holding exactly the given characters.
pub fn string_of(v: &[char]) -> (r: String)
    ensures
        r@ == v@,
{
    let mut out = String::new();
    let mut i: usize = 0;
    while i < v.len()
        invariant
            i <= v@.len(),
            out@ == v@.subrange(0, i as int),
        decreases v@.len() - i,
    {
        push_char(&mut out, v[i]);
        i = i + 1;
    }
    out
}

/// The characters of `v[lo..hi]`.
pub fn slice_chars(v: &[char], lo: usize, hi: usize) -> (r: Vec<char>)
    requires
        lo <= hi <= v@.len(),
    ensures
        r@ == v@.subrange(lo as int, hi as int),
{
    let mut out: Vec<char> = Vec::new();
    let mut i: usize = lo;
    while i < hi
        invariant
            lo <= i <= hi <= v@.len(),
            out@ == v@.subrange(lo as int, i as int),
        decreases hi - i,
    {
        out.push(v[i]);
        i = i + 1;
    }
    out
}

/// `str::trim` on characters.
pub fn trim_chars(v: &[char]) -> (r: Vec<char>)
    ensures
        r@ == trim(v@),
{
    let ghost s = v@;
    let mut i: usize = 0;
    while i < v.len() && char_is_ws(v[i])
        invariant
            s == v@,
            i <= v@.len(),
            skip_fwd(s, i as int, ws_pred()) == skip_fwd(s, 0, ws_pred()),
        decreases v@.len() - i,
    {
        proof {
            assert(ws_pred()(s[i as int]));
            assert(skip_fwd(s, i as int, ws_pred()) == skip_fwd(s, i + 1, ws_pred()));
        }
        i = i + 1;
    }
    let mut j: usize = v.len();
    while j > i && char_is_ws(v[j - 1])
        invariant
            s == v@,
            i <= j <= v@.len(),
            skip_back(s, i as int, j as int, ws_pred()) == skip_back(
                s,
                i as int,
                s.len() as int,
                ws_pred(),
            ),
        decreases j - i,
    {
        proof {
            assert(ws_pred()(s[j - 1]));
            assert(skip_back(s, i as int, j as int, ws_pred()) == skip_back(s, i as int, j - 1, ws_pred()));
        }
        j = j - 1;
    }
    slice_chars(v, i, j)
}

/// `str::trim_end_matches(c)` on characters.
pub fn trim_end_char_chars(v: &[char], c: char) -> (r: Vec<char>)
    ensures
        r@ == trim_end_char(v@, c),
{
    let ghost s = v@;
    let mut j: usize = v.len();
    while j > 0 && v[j - 1] == c
        invariant
            s == v@,
            j <= v@.len(),
            skip_back(s, 0, j as int, char_pred(c)) == skip_back(
                s,
                0,
                s.len() as int,
                char_pred(c),
            ),
        decreases j,
    {
        proof {
            assert(char_pred(c)(s[j - 1]));
            assert(skip_back(s, 0, j as int, char_pred(c)) == skip_back(s, 0, j - 1, char_pred(c)));
        }
        j = j - 1;
    }
    slice_chars(v, 0, j)
}

/// `str::to_ascii_lowercase` on characters.
pub fn lower_chars(v: &[char]) -> (r: Vec<char>)
    ensures
        r@ == ascii_lower(v@),
{
    let mut out: Vec<char> = Vec::new();
    let mut i: usize = 0;
    while i < v.len()
        invariant
            i <= v@.len(),
            out@ == ascii_lower(v@.subrange(0, i as int)),
        decreases v@.len() - i,
    {
        out.push(char_lower(v[i]));
        proof {
            assert(v@.subrange(0, i + 1) == v@.subrange(0, i as int).push(v@[i as int]));
        }
        i = i + 1;
    }
    proof {
        assert(v@.subrange(0, v@.len() as int) == v@);
    }
    out
}

/// Element-wise equality of two character sequences.
pub fn chars_eq(a: &[char], b: &[char]) -> (r: bool)
    ensures
        r == (a@ == b@),
{
    if a.len() != b.len() {
        return false;
    }
    let mut i: usize = 0;
    while i < a.len()
        invariant
            a@.len() == b@.len(),
            i <= a@.len(),
            forall|k: int| 0 <= k < i ==> a@[k] == b@[k],
        decreases a@.len() - i,
    {
        if a[i] != b[i] {
            return false;
        }
        i = i + 1;
    }
    proof {
        assert(a@ =~= b@);
    }
    true
}

/// `str::eq_ignore_ascii_case` on characters.
pub fn chars_eq_ignore_case(a: &[char], b: &[char]) -> (r: bool)
    ensures
        r == eq_ignore_case(a@, b@),
{
    let la = lower_chars(a);
    let lb = lower_chars(b);
    chars_eq(la.as_slice(), lb.as_slice())
}

/// `s` starts with `p`, on characters.
pub fn chars_starts_with(s: &[char], p: &[char]) -> (r: bool)
    ensures
        r == starts_with(s@, p@),
{
    if p.len() > s.len() {
        return false;
    }
    let mut i: usize = 0;
    while i < p.len()
        invariant
            p@.len() <= s@.len(),
            i <= p@.len(),
            forall|k: int| 0 <= k < i ==> s@[k] == p@[k],
        decreases p@.len() - i,
    {
        if s[i] != p[i] {
            return false;
        }
        i = i + 1;
    }
    proof {
        assert(s@.subrange(0, p@.len() as int) =~= p@);
    }
    true
}

/// `s` ends with `p`, on characters.
pub fn chars_ends_with(s: &[char], p: &[char]) -> (r: bool)
    ensures
        r == ends_with(s@, p@),
{
    if p.len() > s.len() {
        return false;
    }
    let off = s.len() - p.len();
    let mut i: usize = 0;
    while i < p.len()
        invariant
            p@.len() <= s@.len(),
            off + p.len() == s.len(),
            s.len() == s@.len(),
            i <= p@.len(),
            forall|k: int| 0 <= k < i ==> s@[off + k] == p@[k],
        decreases p@.len() - i,
    {
        if s[off + i] != p[i] {
            return false;
        }
        i = i + 1;
    }
    proof {
        assert(s@.subrange(off as int, s@.len() as int) =~= p@);
    }
    true
}

/// `s` contains the character `c`.
pub fn chars_contains(s: &[char], c: char) -> (r: bool)
    ensures
        r == s@.contains(c),
{
    let mut i: usize = 0;
    while i < s.len()
        invariant
            i <= s@.len(),
            forall|k: int| 0 <= k < i ==> s@[k] != c,
        decreases s@.len() - i,
    {
        if s[i] == c {
            return true;
        }
        i = i + 1;
    }
    false
}


/// Lexicographic order of character sequences from position `i` (the order of `str`'s
/// `Ord`, which compares UTF-8 bytes and so agrees with code-point order).
pub open spec fn lex_lt_from(a: Seq<char>, b: Seq<char>, i: int) -> bool
    decreases a.len() - i,
{
    if i >= a.len() {
        i < b.len()
    } else if i >= b.len() {
        false
    } else if a[i] < b[i] {
        true
    } else if a[i] > b[i] {
        false
    } else {
        lex_lt_from(a, b, i + 1)
    }
}

/// `a < b` for strings.
pub open spec fn lex_lt(a: Seq<char>, b: Seq<char>) -> bool {
    lex_lt_from(a, b, 0)
}

/// `a < b` on character sequences.
pub fn chars_lt(a: &[char], b: &[char]) -> (r: bool)
    ensures
        r == lex_lt(a@, b@),
{
    let mut i: usize = 0;
    loop
        invariant
            i <= a@.len(),
            i <= b@.len(),
            lex_lt_from(a@, b@, i as int) == lex_lt_from(a@, b@, 0),
        decreases a@.len() - i,
    {
        if i >= a.len() {
            return i < b.len();
        }
        if i >= b.len() {
            return false;
        }
        if a[i] < b[i] {
            return true;
        }
        if a[i] > b[i] {
            return false;
        }
        i = i + 1;
    }
}

/// `a < b` for strings.
pub fn str_lt(a: &str, b: &str) -> (r: bool)
    ensures
        r == lex_lt(a@, b@),
{
    let ca = chars_of(a);
    let cb = chars_of(b);
    chars_lt(ca.as_slice(), cb.as_slice())
}

/// Equality of two strings by their characters.
pub fn str_eq(a: &str, b: &str) -> (r: bool)
    ensures
        r == (a@ == b@),
{
    let ca = chars_of(a);
    let cb = chars_of(b);
    chars_eq(ca.as_slice(), cb.as_slice())
}

/// Appends the characters of `s` to `out`.
pub fn append_str(out: &mut Vec<char>, s: &str)
    ensures
        final(out)@ == old(out)@ + s@,
{
    let cs = chars_of(s);
    let mut i: usize = 0;
    while i < cs.len()
        invariant
            i <= cs@.len(),
            cs@ == s@,
            out@ == old(out)@ + s@.subrange(0, i as int),
        decreases cs@.len() - i,
    {
        out.push(cs[i]);
        proof {
            assert(s@.subrange(0, i + 1) == s@.subrange(0, i as int).push(s@[i as int]));
        }
        i = i + 1;
    }
    proof {
        assert(s@.subrange(0, s@.len() as int) == s@);
    }
}

/// `parts.join(sep)`.
pub open spec fn joined(parts: Seq<Seq<char>>, sep: Seq<char>) -> Seq<char>
    decreases parts.len(),
{
    if parts.len() == 0 {
        Seq::empty()
    } else if parts.len() == 1 {
        parts[0]
    } else {
        joined(parts.drop_last(), sep) + sep + parts.last()
    }
}

/// `parts.join(sep)` for strings.
pub fn join_strings(parts: &[String], sep: &str) -> (r: String)
    ensures
        r@ == joined(strings_view(parts@), sep@),
{
    let mut out: Vec<char> = Vec::new();
    let mut i: usize = 0;
    while i < parts.len()
        invariant
            i <= parts@.len(),
            out@ == joined(strings_view(parts@).subrange(0, i as int), sep@),
        decreases parts@.len() - i,
    {
        let ghost prev = strings_view(parts@).subrange(0, i as int);
        if i > 0 {
            append_str(&mut out, sep);
        }
        append_str(&mut out, parts[i].as_str());
        proof {
            let next = strings_view(parts@).subrange(0, i + 1);
            assert(next.drop_last() =~= prev);
            assert(next.last() == parts@[i as int]@);
            if i == 0 {
                assert(out@ =~= next[0]);
            }
        }
        i = i + 1;
    }
    proof {
        assert(strings_view(parts@).subrange(0, parts@.len() as int) =~= strings_view(parts@));
    }
    string_of(out.as_slice())
}

/// The decimal digit for `d` (0 to 9).
pub open spec fn digit_char(d: nat) -> char {
    (48 + d) as char
}

/// Decimal text of a natural number, without leading zeros.
pub open spec fn dec_text(n: nat) -> Seq<char>
    decreases n,
{
    if n < 10 {
        seq![digit_char(n)]
    } else {
        dec_text(n / 10) + seq![digit_char(n % 10)]
    }
}

/// `to_string` of an integer: `-` before the digits of a negative one.
pub open spec fn int_text(n: int) -> Seq<char> {
    if n < 0 {
        seq!['-'] + dec_text((-n) as nat)
    } else {
        dec_text(n as nat)
    }
}

fn push_decimal(out: &mut Vec<char>, m: u64)
    ensures
        final(out)@ == old(out)@ + dec_text(m as nat),
    decreases m,
{
    if m >= 10 {
        push_decimal(out, m / 10);
    }
    let d: u8 = (m % 10) as u8;
    out.push((48u8 + d) as char);
    proof {
        assert(seq![digit_char((m % 10) as nat)] =~= seq![(48u8 + d) as char]);
    }
}

/// `i32::to_string`.
pub fn i32_text(n: i32) -> (r: String)
    ensures
        r@ == int_text(n as int),
{
    let mut out: Vec<char> = Vec::new();
    if n < 0 {
        out.push('-');
        let m: u64 = (0i64 - (n as i64)) as u64;
        push_decimal(&mut out, m);
    } else {
        push_decimal(&mut out, n as u64);
    }
    string_of(out.as_slice())
}

/// `u32::to_string`.
pub fn u32_text(n: u32) -> (r: String)
    ensures
        r@ == dec_text(n as nat),
{
    let mut out: Vec<char> = Vec::new();
    push_decimal(&mut out, n as u64);
    string_of(out.as_slice())
}

/// An owned copy of a string slice.
pub fn owned(s: &str) -> (r: String)
    ensures
        r@ == s@,
{
    String::from_str(s)
}

/// The characters of a list of strings.
pub open spec fn strings_view(v: Seq<String>) -> Seq<Seq<char>> {
    v.map_values(|s: String| s@)
}


/// Equal from position `i` on.
pub open spec fn same_from(a: Seq<char>, b: Seq<char>, i: int) -> bool {
    a.len() == b.len() && forall|k: int| i <= k < a.len() ==> a[k] == b[k]
}

pub proof fn lemma_lex_irreflexive(a: Seq<char>, i: int)
    requires
        0 <= i,
    ensures
        !lex_lt_from(a, a, i),
    decreases a.len() - i,
{
    if i < a.len() {
        lemma_lex_irreflexive(a, i + 1);
    }
}

pub proof fn lemma_lex_trichotomy(a: Seq<char>, b: Seq<char>, i: int)
    requires
        0 <= i,
        i <= a.len() && i <= b.len(),
    ensures
        lex_lt_from(a, b, i) || lex_lt_from(b, a, i) || same_from(a, b, i),
        !(lex_lt_from(a, b, i) && lex_lt_from(b, a, i)),
        same_from(a, b, i) ==> !lex_lt_from(a, b, i),
    decreases a.len() - i,
{
    if i < a.len() && i < b.len() && a[i] == b[i] {
        lemma_lex_trichotomy(a, b, i + 1);
        if same_from(a, b, i + 1) {
            assert(same_from(a, b, i));
        }
        if same_from(a, b, i) {
            assert(same_from(a, b, i + 1));
        }
    } else if i < a.len() && i < b.len() {
        assert(!same_from(a, b, i));
    } else if same_from(a, b, i) {
    }
}

pub proof fn lemma_lex_transitive(a: Seq<char>, b: Seq<char>, c: Seq<char>, i: int)
    requires
        0 <= i,
        lex_lt_from(a, b, i),
        lex_lt_from(b, c, i),
    ensures
        lex_lt_from(a, c, i),
    decreases a.len() - i,
{
    if i < a.len() && i < b.len() && i < c.len() && a[i] == b[i] && b[i] == c[i] {
        lemma_lex_transitive(a, b, c, i + 1);
    }
}

/// `lex_lt` is a strict total order.
pub proof fn lemma_lex_order(a: Seq<char>, b: Seq<char>, c: Seq<char>)
    ensures
        !lex_lt(a, a),
        lex_lt(a, b) || lex_lt(b, a) || a == b,
        !(lex_lt(a, b) && lex_lt(b, a)),
        lex_lt(a, b) && lex_lt(b, c) ==> lex_lt(a, c),
{
    lemma_lex_irreflexive(a, 0);
    lemma_lex_trichotomy(a, b, 0);
    if same_from(a, b, 0) {
        assert(a =~= b);
    }
    if lex_lt(a, b) && lex_lt(b, c) {
        lemma_lex_transitive(a, b, c, 0);
    }
}

} // verus!
