//! Whether a mod's declared Minecraft dependency admits the target version.
use std::cmp::Ordering;
use vstd::prelude::*;
use crate::text::{
    all_ws, chars_contains, chars_eq_ignore_case, chars_of, char_pred, eq_ignore_case, is_ascii_digit, is_ws, ix, lemma_trim_split, lemma_trim_unique, lower_char, lemma_skip_back, lemma_trim, skip_back, skip_fwd,
    slice_chars, starts_with, trim, trim_chars, trim_end_char, trim_end_char_chars,
};
use crate::tree::{
    DataNode, get_str, json_parse, lookup_from, node_get, node_str, parse_json, parse_toml,
    toml_parse,
};
use crate::mc_version::{
    components, compare_chars, components_chars, normalized, same_version, same_version_chars,
    split_chars, split_on, version_order, version_shape, lemma_parsable_text,
};

verus! {

pub open spec fn is_open_bracket(c: char) -> bool {
    c == '[' || c == '('
}

pub open spec fn is_close_bracket(c: char) -> bool {
    c == ']' || c == ')'
}

pub open spec fn open_pred() -> spec_fn(char) -> bool {
    |c: char| is_open_bracket(c)
}

pub open spec fn close_pred() -> spec_fn(char) -> bool {
    |c: char| is_close_bracket(c)
}

pub open spec fn starts_with_bracket(s: Seq<char>) -> bool {
    s.len() > 0 && is_open_bracket(s[0])
}

/// The requirement text that `minecraft_dep_allows` inspects: trimmed, trailing `-` removed.
pub open spec fn dep_req(req: Seq<char>) -> Seq<char> {
    trim_end_char(trim(req), '-')
}

pub open spec fn at_least(o: Option<Ordering>) -> bool {
    o matches Some(x) && x != Ordering::Less
}

pub open spec fn at_most(o: Option<Ordering>) -> bool {
    o matches Some(x) && x != Ordering::Greater
}

/// `tilde_allows`: same major and minor (when both have two components) and not older.
pub open spec fn tilde_spec(base: Seq<char>, target: Seq<char>) -> bool {
    match (components(base), components(target)) {
        (Some(b), Some(t)) => if b.len() < 2 || t.len() < 2 {
            at_least(version_order(target, base))
        } else {
            b[0] == t[0] && b[1] == t[1] && at_least(version_order(target, base))
        },
        _ => false,
    }
}

/// The bounds text of an interval: leading `[`/`(` and trailing `]`/`)` characters removed.
pub open spec fn interval_inner(s: Seq<char>) -> Seq<char> {
    let k = skip_fwd(s, 0, open_pred());
    s.subrange(k, skip_back(s, k, s.len() as int, close_pred()))
}

/// Trimmed pieces, empty ones dropped.
pub open spec fn nonempty_trimmed(ps: Seq<Seq<char>>) -> Seq<Seq<char>>
    decreases ps.len(),
{
    if ps.len() == 0 {
        Seq::empty()
    } else {
        let rest = nonempty_trimmed(ps.drop_last());
        if trim(ps.last()).len() > 0 {
            rest.push(trim(ps.last()))
        } else {
            rest
        }
    }
}

/// The non-empty comma-separated bounds of an interval.
pub open spec fn interval_bounds(s: Seq<char>) -> Seq<Seq<char>> {
    nonempty_trimmed(split_on(interval_inner(s), ','))
}

/// Interval check on a trimmed spec that starts with `[` or `(`: the first bound is the
/// lower bound, the second (if any) the upper; `[`/`]` make them inclusive.
pub open spec fn interval_spec(s: Seq<char>, target: Seq<char>) -> bool {
    let left_inclusive = s[0] == '[';
    let right_inclusive = s.last() == ']';
    let parts = interval_bounds(s);
    if parts.len() == 0 {
        true
    } else {
        let low_ok = match version_order(target, parts[0]) {
            Some(c) => !(c == Ordering::Less || (c == Ordering::Equal && !left_inclusive)),
            None => false,
        };
        let high_ok = parts.len() < 2 || match version_order(target, parts[1]) {
            Some(c) => !(c == Ordering::Greater || (c == Ordering::Equal && !right_inclusive)),
            None => false,
        };
        low_ok && high_ok
    }
}

pub open spec fn lit_ge() -> Seq<char> {
    seq!['>', '=']
}

pub open spec fn lit_le() -> Seq<char> {
    seq!['<', '=']
}

/// A comma together with a bracket, but no leading operator or bracket.
pub open spec fn comma_form(r: Seq<char>) -> bool {
    r.contains(',') && (r.contains('[') || r.contains('('))
}

/// Evaluating the requirement comes back to the comma form with nothing left to strip:
/// the requirement parser, which hands such text to the interval parser and gets it
/// back, recurses forever there.
pub open spec fn dep_diverges(req: Seq<char>, target: Seq<char>) -> bool
    decreases req.len(),
{
    let r = dep_req(req);
    let t = trim(target);
    if r.len() == 0 || r == seq!['*'] || same_version(r, t) || starts_with(r, seq!['>'])
        || starts_with(r, seq!['<']) || starts_with(r, seq!['~']) || starts_with_bracket(r) {
        false
    } else if comma_form(r) {
        if trim(r).len() < req.len() {
            dep_diverges(trim(r), target)
        } else {
            true
        }
    } else {
        false
    }
}

/// `minecraft_dep_allows`: Fabric/Quilt `depends.minecraft` requirement semantics.
pub open spec fn dep_allows(req: Seq<char>, target: Seq<char>) -> bool
    decreases req.len(),
{
    let r = dep_req(req);
    let t = trim(target);
    if r.len() == 0 || r == seq!['*'] {
        true
    } else if same_version(r, t) {
        true
    } else if starts_with(r, lit_ge()) {
        at_least(version_order(t, trim_end_char(trim(r.skip(2)), '-')))
    } else if starts_with(r, seq!['>']) {
        version_order(t, trim(r.skip(1))) == Some(Ordering::Greater)
    } else if starts_with(r, lit_le()) {
        at_most(version_order(t, trim(r.skip(2))))
    } else if starts_with(r, seq!['<']) {
        version_order(t, trim(r.skip(1))) == Some(Ordering::Less)
    } else if starts_with(r, seq!['~']) {
        tilde_spec(trim(r.skip(1)), t)
    } else if starts_with_bracket(r) {
        interval_spec(trim(r), t)
    } else if comma_form(r) {
        if trim(r).len() < req.len() {
            dep_allows(trim(r), target)
        } else {
            false
        }
    } else {
        same_version(r, t)
    }
}

/// `maven_interval_allows` diverges exactly when its fallback to `minecraft_dep_allows` does.
pub open spec fn maven_diverges(spec: Seq<char>, target: Seq<char>) -> bool {
    !starts_with_bracket(trim(spec)) && dep_diverges(trim(spec), target)
}

/// `maven_interval_allows`: a Maven interval, or a plain requirement when no bracket leads.
pub open spec fn maven_allows(spec: Seq<char>, target: Seq<char>) -> bool {
    let s = trim(spec);
    if !starts_with_bracket(s) {
        dep_allows(s, target)
    } else {
        interval_spec(s, target)
    }
}


proof fn lemma_starts1(s: Seq<char>, c: char)
    ensures
        starts_with(s, seq![c]) == (s.len() >= 1 && s[0] == c),
{
    if s.len() >= 1 && s[0] == c {
        assert(s.subrange(0, 1) =~= seq![c]);
    }
    if starts_with(s, seq![c]) {
        assert(s.subrange(0, 1)[0] == s[0]);
    }
}

proof fn lemma_starts2(s: Seq<char>, a: char, b: char)
    ensures
        starts_with(s, seq![a, b]) == (s.len() >= 2 && s[0] == a && s[1] == b),
{
    if s.len() >= 2 && s[0] == a && s[1] == b {
        assert(s.subrange(0, 2) =~= seq![a, b]);
    }
    if starts_with(s, seq![a, b]) {
        assert(s.subrange(0, 2)[0] == s[0]);
        assert(s.subrange(0, 2)[1] == s[1]);
    }
}

/// An empty requirement or `*` admits every version.
pub proof fn law_wildcard_admits_all(req: Seq<char>, target: Seq<char>)
    requires
        dep_req(req).len() == 0 || dep_req(req) == seq!['*'],
    ensures
        dep_allows(req, target),
        !dep_diverges(req, target),
{
}

/// A bare version (no operator, bracket or interval) admits exactly the same version:
/// `1.21.1` does not admit `1.21.11`.
pub proof fn law_bare_version_is_exact(req: Seq<char>, target: Seq<char>)
    requires
        dep_req(req).len() > 0,
        dep_req(req) != seq!['*'],
        dep_req(req)[0] != '>' && dep_req(req)[0] != '<' && dep_req(req)[0] != '~',
        !starts_with_bracket(dep_req(req)),
        !comma_form(dep_req(req)),
    ensures
        dep_allows(req, target) == same_version(dep_req(req), trim(target)),
        !dep_diverges(req, target),
{
    let r = dep_req(req);
    lemma_starts1(r, '>');
    lemma_starts1(r, '<');
    lemma_starts1(r, '~');
    lemma_starts2(r, '>', '=');
    lemma_starts2(r, '<', '=');
}

proof fn lemma_split_append(p: Seq<char>, x: Seq<char>, sep: char)
    requires
        forall|i: int| 0 <= i < x.len() ==> x[i] != sep,
    ensures
        split_on(p + x, sep) == split_on(p, sep).update(
            split_on(p, sep).len() - 1,
            split_on(p, sep).last() + x,
        ),
        split_on(p + x, sep).len() == split_on(p, sep).len(),
    decreases x.len(),
{
    lemma_split_len(p, sep);
    if x.len() == 0 {
        assert(p + x =~= p);
        assert(split_on(p, sep).last() + x =~= split_on(p, sep).last());
        assert(split_on(p, sep).update(split_on(p, sep).len() - 1, split_on(p, sep).last())
            =~= split_on(p, sep));
    } else {
        lemma_split_append(p, x.drop_last(), sep);
        assert((p + x).drop_last() =~= p + x.drop_last());
        assert((p + x).last() == x.last());
        assert(split_on(p, sep).last() + x.drop_last() + seq![x.last()] =~= split_on(p, sep).last()
            + x);
        let prev = split_on(p + x.drop_last(), sep);
        assert(prev.last() == split_on(p, sep).last() + x.drop_last());
        assert(prev.last().push(x.last()) =~= split_on(p, sep).last() + x);
        assert(prev.update(prev.len() - 1, prev.last().push(x.last())) =~= split_on(p, sep).update(
            split_on(p, sep).len() - 1,
            split_on(p, sep).last() + x,
        ));
    }
}

proof fn lemma_split_len(s: Seq<char>, sep: char)
    ensures
        split_on(s, sep).len() >= 1,
    decreases s.len(),
{
    if s.len() > 0 {
        lemma_split_len(s.drop_last(), sep);
    }
}

/// Text made of ASCII digits and dots (what a version bound looks like).
pub open spec fn dotted_digits(s: Seq<char>) -> bool {
    s.len() > 0 && forall|i: int| 0 <= i < s.len() ==> is_ascii_digit(#[trigger] s[i]) || s[i] == '.'
}

/// A target that compares to the lower bound as `o` is above it: `[` includes the bound,
/// `(` excludes it.
pub open spec fn above_lower(open: char, o: Option<Ordering>) -> bool {
    match o {
        Some(x) => x == Ordering::Greater || (x == Ordering::Equal && open == '['),
        None => false,
    }
}

/// A target that compares to the upper bound as `o` is below it: `]` includes the bound,
/// `)` excludes it.
pub open spec fn below_upper(close: char, o: Option<Ordering>) -> bool {
    match o {
        Some(x) => x == Ordering::Less || (x == Ordering::Equal && close == ']'),
        None => false,
    }
}

proof fn lemma_dotted_fixed(v: Seq<char>)
    requires
        dotted_digits(v),
    ensures
        trim(v) == v,
        trim_end_char(v, '-') == v,
        !is_ws(v[0]) && !is_ws(v.last()),
{
    assert(is_ascii_digit(v[0]) || v[0] == '.');
    assert(is_ascii_digit(v[v.len() - 1]) || v[v.len() - 1] == '.');
    lemma_trim(v);
    assert(!char_pred('-')(v[v.len() - 1]));
    assert(skip_back(v, 0, v.len() as int, char_pred('-')) == v.len());
    assert(v.subrange(0, v.len() as int) =~= v);
}

/// A parsable version is its dotted-digit text between whitespace, so it holds no comma
/// and no bracket.
proof fn lemma_bound_text(x: Seq<char>) -> (ab: (Seq<char>, Seq<char>))
    requires
        components(x) is Some,
    ensures
        all_ws(ab.0),
        all_ws(ab.1),
        x == ab.0 + trim(x) + ab.1,
        dotted_digits(trim(x)),
        components(trim(x)) == components(x),
        x.len() > 0,
        forall|i: int|
            0 <= i < x.len() ==> #[trigger] x[i] != ',' && !is_open_bracket(x[i])
                && !is_close_bracket(x[i]),
{
    lemma_parsable_text(x);
    let ab = lemma_trim_split(x);
    let (a, b) = ab;
    let w = trim(x);
    assert forall|i: int| 0 <= i < x.len() implies #[trigger] x[i] != ',' && !is_open_bracket(x[i])
        && !is_close_bracket(x[i]) by {
        if i < a.len() {
            assert(x[i] == a[i]);
            assert(is_ws(a[i]));
        } else if i < a.len() + w.len() {
            assert(x[i] == w[i - a.len()]);
            assert(is_ascii_digit(w[i - a.len()]) || w[i - a.len()] == '.');
        } else {
            assert(x[i] == b[i - a.len() - w.len()]);
            assert(is_ws(b[i - a.len() - w.len()]));
        }
    }
    ab
}

/// The bounds of `o lo , rest c` are the trimmed `lo` followed by the trimmed `rest`
/// when there is one.
proof fn lemma_interval_parts(o: char, lo: Seq<char>, rest: Seq<char>, c: char)
    requires
        is_open_bracket(o),
        is_close_bracket(c),
        components(lo) is Some,
        rest.len() == 0 || components(rest) is Some,
    ensures
        ({
            let s = seq![o] + lo + seq![','] + rest + seq![c];
            &&& trim(s) == s
            &&& starts_with_bracket(s)
            &&& s[0] == o
            &&& s.last() == c
            &&& interval_bounds(s) == if rest.len() == 0 {
                seq![trim(lo)]
            } else {
                seq![trim(lo), trim(rest)]
            }
        }),
{
    let s = seq![o] + lo + seq![','] + rest + seq![c];
    let n: int = s.len() + 0int;
    lemma_bound_text(lo);
    assert(s[0] == o);
    assert(s[n - 1] == c);
    assert(!is_ws(s[0]) && !is_ws(s.last()));
    lemma_trim(s);
    assert(s[1] == lo[0]);
    assert(!open_pred()(s[1]));
    assert(skip_fwd(s, 1, open_pred()) == 1);
    assert(skip_fwd(s, 0, open_pred()) == 1);
    if rest.len() == 0 {
        assert(s[n - 2] == ',');
    } else {
        lemma_bound_text(rest);
        assert(s[n - 2] == rest[rest.len() - 1]);
    }
    assert(!close_pred()(s[n - 2]));
    assert(skip_back(s, 1, n - 1, close_pred()) == n - 1);
    assert(skip_back(s, 1, n, close_pred()) == n - 1);
    let inner = lo + seq![','] + rest;
    assert(interval_inner(s) =~= inner);
    lemma_split_append(Seq::empty(), lo, ',');
    assert(Seq::<char>::empty() + lo =~= lo);
    assert(split_on(lo, ',') =~= seq![lo]);
    let lc = lo + seq![','];
    assert(lc.drop_last() =~= lo);
    assert(split_on(lc, ',') =~= seq![lo, Seq::<char>::empty()]);
    assert(seq![lo].drop_last() =~= Seq::<Seq<char>>::empty());
    assert(nonempty_trimmed(Seq::<Seq<char>>::empty()) == Seq::<Seq<char>>::empty());
    assert(nonempty_trimmed(seq![lo]) =~= seq![trim(lo)]);
    if rest.len() == 0 {
        assert(inner =~= lc);
        let ps = seq![lo, Seq::<char>::empty()];
        assert(ps.drop_last() =~= seq![lo]);
        assert(trim(Seq::<char>::empty()) =~= Seq::<char>::empty());
        assert(nonempty_trimmed(ps) =~= seq![trim(lo)]);
    } else {
        lemma_split_append(lc, rest, ',');
        assert(lc + rest =~= inner);
        assert(Seq::<char>::empty() + rest =~= rest);
        assert(split_on(inner, ',') =~= seq![lo, rest]);
        let ps = seq![lo, rest];
        assert(ps.drop_last() =~= seq![lo]);
        assert(nonempty_trimmed(ps) =~= seq![trim(lo), trim(rest)]);
    }
}

/// A Maven interval `o lo , hi c` admits exactly the targets above `lo` and below `hi`,
/// where `[` and `]` include the bound and `(` and `)` exclude it.
pub proof fn law_maven_bounded(o: char, lo: Seq<char>, hi: Seq<char>, c: char, target: Seq<char>)
    requires
        is_open_bracket(o),
        is_close_bracket(c),
        components(lo) is Some,
        components(hi) is Some,
    ensures
        maven_allows(seq![o] + lo + seq![','] + hi + seq![c], target) == (above_lower(
            o,
            version_order(target, lo),
        ) && below_upper(c, version_order(target, hi))),
{
    lemma_interval_parts(o, lo, hi, c);
    lemma_bound_text(lo);
    lemma_bound_text(hi);
    assert(version_order(target, trim(lo)) == version_order(target, lo));
    assert(version_order(target, trim(hi)) == version_order(target, hi));
}

/// A Maven interval with no upper bound, `o lo ,` and a closing bracket, admits exactly
/// the targets above `lo`.
pub proof fn law_maven_open_ended(o: char, lo: Seq<char>, c: char, target: Seq<char>)
    requires
        is_open_bracket(o),
        is_close_bracket(c),
        components(lo) is Some,
    ensures
        maven_allows(seq![o] + lo + seq![','] + seq![c], target) == above_lower(
            o,
            version_order(target, lo),
        ),
{
    lemma_interval_parts(o, lo, Seq::empty(), c);
    lemma_bound_text(lo);
    assert(version_order(target, trim(lo)) == version_order(target, lo));
    assert(seq![o] + lo + seq![','] + Seq::<char>::empty() + seq![c] =~= seq![o] + lo + seq![',']
        + seq![c]);
}

/// The requirement `p v`, for an operator `p` and a parsable version `v`, is read with
/// `v`'s trailing whitespace dropped; it is not the same version as any parsable target,
/// and its operand, trimmed, is `v` trimmed.
proof fn lemma_operator_req(p: Seq<char>, v: Seq<char>, t: Seq<char>)
    requires
        1 <= p.len() <= 2,
        p[0] == '>' || p[0] == '<' || p[0] == '~',
        p.len() == 2 ==> p[1] == '=',
        components(v) is Some,
        components(t) is Some,
    ensures
        dep_req(p + v).len() >= 2,
        dep_req(p + v) != seq!['*'],
        dep_req(p + v)[0] == p[0],
        p.len() == 2 ==> dep_req(p + v)[1] == '=',
        p.len() == 1 ==> dep_req(p + v)[1] != '=',
        !same_version(dep_req(p + v), trim(t)),
        trim(dep_req(p + v).skip(p.len() as int)) == trim(v),
        trim_end_char(trim(v), '-') == trim(v),
        components(trim(v)) == components(v),
        components(trim(t)) == components(t),
{
    let (a, b) = lemma_bound_text(v);
    let w = trim(v);
    lemma_dotted_fixed(w);
    let m = p + a + w;
    assert(p + v =~= Seq::<char>::empty() + m + b);
    assert(m[0] == p[0]);
    assert(m.last() == w.last());
    lemma_trim_unique(Seq::empty(), m, b);
    assert(trim(p + v) == m);
    assert(!char_pred('-')(m[m.len() - 1]));
    assert(skip_back(m, 0, m.len() as int, char_pred('-')) == m.len());
    assert(m.subrange(0, m.len() as int) =~= m);
    assert(dep_req(p + v) == m);
    assert(m.skip(p.len() as int) =~= a + w + Seq::<char>::empty());
    lemma_trim_unique(a, w, Seq::empty());
    if p.len() == 1 {
        if a.len() > 0 {
            assert(m[1] == a[0]);
            assert(is_ws(a[0]));
        } else {
            assert(m[1] == w[0]);
        }
    }
    assert(m != seq!['*']) by {
        if m == seq!['*'] {
            assert(m[0] == '*');
        }
    }
    lemma_trim(t);
    assert(normalized(trim(t)) == normalized(t));
    let nt = normalized(t);
    assert(version_shape(nt));
    assert(is_ascii_digit(nt[0]) || nt[0] == '.');
    lemma_trim(m);
    assert(normalized(m)[0] == lower_char(m[0]));
    assert(!version_shape(normalized(m)));
    assert(normalized(m) != nt);
}

/// `>=v`, `>v`, `<=v` and `<v` admit a parsable target exactly when it compares to the
/// parsable version `v` as the operator says.
pub proof fn law_dep_operators(v: Seq<char>, t: Seq<char>)
    requires
        components(v) is Some,
        components(t) is Some,
    ensures
        dep_allows(lit_ge() + v, t) == at_least(version_order(t, v)),
        dep_allows(seq!['>'] + v, t) == (version_order(t, v) == Some(Ordering::Greater)),
        dep_allows(lit_le() + v, t) == at_most(version_order(t, v)),
        dep_allows(seq!['<'] + v, t) == (version_order(t, v) == Some(Ordering::Less)),
{
    lemma_operator_req(seq!['<'], v, t);
    assert(version_order(trim(t), trim(v)) == version_order(t, v));
    let ge = dep_req(lit_ge() + v);
    lemma_operator_req(lit_ge(), v, t);
    lemma_starts2(ge, '>', '=');
    let gt = dep_req(seq!['>'] + v);
    lemma_operator_req(seq!['>'], v, t);
    lemma_starts2(gt, '>', '=');
    lemma_starts1(gt, '>');
    let le = dep_req(lit_le() + v);
    lemma_operator_req(lit_le(), v, t);
    lemma_starts2(le, '>', '=');
    lemma_starts1(le, '>');
    lemma_starts2(le, '<', '=');
    let lt = dep_req(seq!['<'] + v);
    lemma_starts2(lt, '>', '=');
    lemma_starts1(lt, '>');
    lemma_starts2(lt, '<', '=');
    lemma_starts1(lt, '<');
}

/// `~v` admits a parsable target only when the target is not older than `v`; when both
/// have at least two parts it also needs the same major and minor, and these together
/// are enough.
pub proof fn law_tilde(v: Seq<char>, t: Seq<char>)
    requires
        components(v) is Some,
        components(t) is Some,
    ensures
        dep_allows(seq!['~'] + v, t) ==> version_order(t, v) != Some(Ordering::Less),
        ({
            let b = components(v)->0;
            let c = components(t)->0;
            b.len() >= 2 && c.len() >= 2 ==> (dep_allows(seq!['~'] + v, t) == (b[0] == c[0]
                && b[1] == c[1] && version_order(t, v) != Some(Ordering::Less)))
        }),
        ({
            let b = components(v)->0;
            let c = components(t)->0;
            b.len() < 2 || c.len() < 2 ==> (dep_allows(seq!['~'] + v, t) == (version_order(t, v)
                != Some(Ordering::Less)))
        }),
{
    lemma_operator_req(seq!['~'], v, t);
    let r = dep_req(seq!['~'] + v);
    lemma_starts2(r, '>', '=');
    lemma_starts1(r, '>');
    lemma_starts2(r, '<', '=');
    lemma_starts1(r, '<');
    lemma_starts1(r, '~');
    assert(version_order(trim(t), trim(v)) == version_order(t, v));
    assert(version_order(t, v) is Some);
}

fn tilde_allows_chars(base: &[char], target: &[char]) -> (r: bool)
    ensures
        r == tilde_spec(base@, target@),
{
    let b = match components_chars(base) {
        Some(b) => b,
        None => return false,
    };
    let t = match components_chars(target) {
        Some(t) => t,
        None => return false,
    };
    let not_older = match compare_chars(target, base) {
        Some(Ordering::Less) => false,
        Some(_) => true,
        None => false,
    };
    if b.len() < 2 || t.len() < 2 {
        return not_older;
    }
    b[0] == t[0] && b[1] == t[1] && not_older
}

/// `~base`: same major.minor as `base` (when both have two parts) and not older.
fn tilde_allows(base: &str, target: &str) -> (r: bool)
    ensures
        r == tilde_spec(base@, target@),
{
    let b = chars_of(base);
    let t = chars_of(target);
    tilde_allows_chars(b.as_slice(), t.as_slice())
}

fn interval_inner_chars(v: &[char]) -> (r: Vec<char>)
    ensures
        r@ == interval_inner(v@),
{
    let ghost s = v@;
    let mut i: usize = 0;
    while i < v.len() && (v[i] == '[' || v[i] == '(')
        invariant
            s == v@,
            i <= v@.len(),
            skip_fwd(s, ix(i), open_pred()) == skip_fwd(s, 0, open_pred()),
        decreases v@.len() - i,
    {
        proof {
            assert(open_pred()(s[ix(i)]));
            assert(skip_fwd(s, ix(i), open_pred()) == skip_fwd(s, ix(i) + 1, open_pred()));
        }
        i = i + 1;
    }
    let mut j: usize = v.len();
    while j > i && (v[j - 1] == ']' || v[j - 1] == ')')
        invariant
            s == v@,
            i <= j <= v@.len(),
            skip_back(s, ix(i), ix(j), close_pred()) == skip_back(
                s,
                ix(i),
                s.len() as int,
                close_pred(),
            ),
        decreases j - i,
    {
        proof {
            assert(close_pred()(s[ix(j) - 1]));
            assert(skip_back(s, ix(i), ix(j), close_pred()) == skip_back(s, ix(i), ix(j) - 1, close_pred()));
        }
        j = j - 1;
    }
    slice_chars(v, i, j)
}

fn interval_bounds_chars(v: &[char]) -> (r: Vec<Vec<char>>)
    ensures
        r@.len() == interval_bounds(v@).len(),
        forall|k: int| 0 <= k < r@.len() ==> (#[trigger] r@[k])@ == interval_bounds(v@)[k],
{
    let inner = interval_inner_chars(v);
    let pieces = split_chars(inner.as_slice(), ',');
    let ghost ps = split_on(inner@, ',');
    let mut out: Vec<Vec<char>> = Vec::new();
    let mut i: usize = 0;
    proof {
        assert(ps.take(0) == Seq::<Seq<char>>::empty());
    }
    while i < pieces.len()
        invariant
            ps == split_on(inner@, ','),
            pieces@.len() == ps.len(),
            forall|k: int| 0 <= k < pieces@.len() ==> (#[trigger] pieces@[k])@ == ps[k],
            i <= pieces@.len(),
            out@.len() == nonempty_trimmed(ps.take(ix(i))).len(),
            forall|k: int|
                0 <= k < out@.len() ==> (#[trigger] out@[k])@ == nonempty_trimmed(
                    ps.take(ix(i)),
                )[k],
        decreases pieces@.len() - i,
    {
        let t = trim_chars(pieces[i].as_slice());
        proof {
            assert(ps.take(ix(i) + 1).drop_last() == ps.take(ix(i)));
            assert(ps.take(ix(i) + 1).last() == ps[ix(i)]);
        }
        if t.len() > 0 {
            out.push(t);
        }
        i = i + 1;
    }
    proof {
        assert(ps.take(ps.len() as int) == ps);
    }
    out
}

fn interval_allows_chars(s: &[char], target: &[char]) -> (r: bool)
    requires
        starts_with_bracket(s@),
    ensures
        r == interval_spec(s@, target@),
{
    let left_inclusive = s[0] == '[';
    let right_inclusive = s[s.len() - 1] == ']';
    let parts = interval_bounds_chars(s);
    if parts.len() == 0 {
        return true;
    }
    match compare_chars(target, parts[0].as_slice()) {
        None => return false,
        Some(Ordering::Less) => return false,
        Some(Ordering::Equal) => {
            if !left_inclusive {
                return false;
            }
        },
        Some(Ordering::Greater) => {},
    }
    if parts.len() >= 2 {
        match compare_chars(target, parts[1].as_slice()) {
            None => return false,
            Some(Ordering::Greater) => return false,
            Some(Ordering::Equal) => {
                if !right_inclusive {
                    return false;
                }
            },
            Some(Ordering::Less) => {},
        }
    }
    true
}

fn dep_allows_chars(req: &[char], target: &[char]) -> (res: bool)
    requires
        !dep_diverges(req@, target@),
    ensures
        res == dep_allows(req@, target@),
{
    let t = trim_chars(target);
    let mut cur: Vec<char> = slice_chars(req, 0, req.len());
    proof {
        assert(req@.subrange(0, ix(req.len())) == req@);
    }
    loop
        invariant
            t@ == trim(target@),
            !dep_diverges(cur@, target@),
            dep_allows(cur@, target@) == dep_allows(req@, target@),
        decreases cur@.len(),
    {
        let tr = trim_chars(cur.as_slice());
        let r = trim_end_char_chars(tr.as_slice(), '-');
        proof {
            lemma_trim(cur@);
            lemma_skip_back(tr@, 0, ix(tr.len()), char_pred('-'));
            lemma_starts1(r@, '>');
            lemma_starts1(r@, '<');
            lemma_starts1(r@, '~');
            lemma_starts2(r@, '>', '=');
            lemma_starts2(r@, '<', '=');
            if r@.len() == 1 && r@[0] == '*' {
                assert(r@ =~= seq!['*']);
            }
            if r@ == seq!['*'] {
                assert(r@[0] == '*');
            }
        }
        if r.len() == 0 || (r.len() == 1 && r[0] == '*') {
            return true;
        }
        if same_version_chars(r.as_slice(), t.as_slice()) {
            return true;
        }
        if r.len() >= 2 && r[0] == '>' && r[1] == '=' {
            let rest = slice_chars(r.as_slice(), 2, r.len());
            let rt = trim_chars(rest.as_slice());
            let rr = trim_end_char_chars(rt.as_slice(), '-');
            return match compare_chars(t.as_slice(), rr.as_slice()) {
                Some(Ordering::Less) => false,
                Some(_) => true,
                None => false,
            };
        }
        if r[0] == '>' {
            let rest = slice_chars(r.as_slice(), 1, r.len());
            let rt = trim_chars(rest.as_slice());
            return match compare_chars(t.as_slice(), rt.as_slice()) {
                Some(Ordering::Greater) => true,
                _ => false,
            };
        }
        if r.len() >= 2 && r[0] == '<' && r[1] == '=' {
            let rest = slice_chars(r.as_slice(), 2, r.len());
            let rt = trim_chars(rest.as_slice());
            return match compare_chars(t.as_slice(), rt.as_slice()) {
                Some(Ordering::Greater) => false,
                Some(_) => true,
                None => false,
            };
        }
        if r[0] == '<' {
            let rest = slice_chars(r.as_slice(), 1, r.len());
            let rt = trim_chars(rest.as_slice());
            return match compare_chars(t.as_slice(), rt.as_slice()) {
                Some(Ordering::Less) => true,
                _ => false,
            };
        }
        if r[0] == '~' {
            let rest = slice_chars(r.as_slice(), 1, r.len());
            let rt = trim_chars(rest.as_slice());
            return tilde_allows_chars(rt.as_slice(), t.as_slice());
        }
        if r[0] == '[' || r[0] == '(' {
            let s = trim_chars(r.as_slice());
            proof {
                lemma_trim(r@);
            }
            return interval_allows_chars(s.as_slice(), t.as_slice());
        }
        if chars_contains(r.as_slice(), ',') && (chars_contains(r.as_slice(), '[')
            || chars_contains(r.as_slice(), '(')) {
            let s = trim_chars(r.as_slice());
            proof {
                lemma_trim(r@);
            }
            cur = s;
        } else {
            return same_version_chars(r.as_slice(), t.as_slice());
        }
    }
}

/// Parses common Fabric / Quilt `depends.minecraft` strings: `*`, exact versions,
/// `>=`, `>`, `<=`, `<`, `~` and Maven intervals.
pub fn minecraft_dep_allows(req: &str, target: &str) -> (r: bool)
    requires
        !dep_diverges(req@, target@),
    ensures
        r == dep_allows(req@, target@),
{
    let q = chars_of(req);
    let t = chars_of(target);
    dep_allows_chars(q.as_slice(), t.as_slice())
}

fn maven_allows_chars(spec: &[char], target: &[char]) -> (r: bool)
    requires
        !maven_diverges(spec@, target@),
    ensures
        r == maven_allows(spec@, target@),
{
    let s = trim_chars(spec);
    if !(s.len() > 0 && (s[0] == '[' || s[0] == '(')) {
        return dep_allows_chars(s.as_slice(), target);
    }
    interval_allows_chars(s.as_slice(), target)
}

/// A Maven version interval such as `[1.21,1.22)`; text without a leading bracket is
/// read as a plain requirement.
pub fn maven_interval_allows(spec: &str, target: &str) -> (r: bool)
    requires
        !maven_diverges(spec@, target@),
    ensures
        r == maven_allows(spec@, target@),
{
    let s = chars_of(spec);
    let t = chars_of(target);
    maven_allows_chars(s.as_slice(), t.as_slice())
}

fn dep_diverges_chars(req: &[char], target: &[char]) -> (res: bool)
    ensures
        res == dep_diverges(req@, target@),
{
    let t = trim_chars(target);
    let mut cur: Vec<char> = slice_chars(req, 0, req.len());
    proof {
        assert(req@.subrange(0, ix(req.len())) == req@);
    }
    loop
        invariant
            t@ == trim(target@),
            dep_diverges(cur@, target@) == dep_diverges(req@, target@),
        decreases cur@.len(),
    {
        let tr = trim_chars(cur.as_slice());
        let r = trim_end_char_chars(tr.as_slice(), '-');
        proof {
            lemma_trim(cur@);
            lemma_skip_back(tr@, 0, ix(tr.len()), char_pred('-'));
            lemma_starts1(r@, '>');
            lemma_starts1(r@, '<');
            lemma_starts1(r@, '~');
            if r@.len() == 1 && r@[0] == '*' {
                assert(r@ =~= seq!['*']);
            }
            if r@ == seq!['*'] {
                assert(r@[0] == '*');
            }
        }
        if r.len() == 0 || (r.len() == 1 && r[0] == '*') {
            return false;
        }
        if same_version_chars(r.as_slice(), t.as_slice()) {
            return false;
        }
        if r[0] == '>' || r[0] == '<' || r[0] == '~' || r[0] == '[' || r[0] == '(' {
            return false;
        }
        if chars_contains(r.as_slice(), ',') && (chars_contains(r.as_slice(), '[')
            || chars_contains(r.as_slice(), '(')) {
            let s = trim_chars(r.as_slice());
            proof {
                lemma_trim(r@);
            }
            if s.len() < cur.len() {
                cur = s;
            } else {
                return true;
            }
        } else {
            return false;
        }
    }
}

/// Whether `minecraft_dep_allows(req, target)` would never return (what its `requires`
/// leaves out).
pub fn minecraft_dep_diverges(req: &str, target: &str) -> (r: bool)
    ensures
        r == dep_diverges(req@, target@),
{
    let q = chars_of(req);
    let t = chars_of(target);
    dep_diverges_chars(q.as_slice(), t.as_slice())
}

/// Whether `maven_interval_allows(spec, target)` would never return.
pub fn maven_interval_diverges(spec: &str, target: &str) -> (r: bool)
    ensures
        r == maven_diverges(spec@, target@),
{
    let c = chars_of(spec);
    let s = trim_chars(c.as_slice());
    if s.len() > 0 && (s[0] == '[' || s[0] == '(') {
        return false;
    }
    let t = chars_of(target);
    dep_diverges_chars(s.as_slice(), t.as_slice())
}


/// Forge `versionRange` check: a Maven interval.
fn forge_version_range_allows(range: &str, target: &str) -> (r: bool)
    requires
        !maven_diverges(range@, target@),
    ensures
        r == maven_allows(range@, target@),
{
    maven_interval_allows(range, target)
}


/// A string element of a dependency array that admits the target.
pub open spec fn item_allows(x: DataNode, target: Seq<char>) -> bool {
    node_str(x) matches Some(s) && dep_allows(s, target)
}

/// `fabric_minecraft_value_allows`: a requirement string, a list of alternatives
/// (empty means any) or anything else (not checked).
pub open spec fn value_allows(v: DataNode, target: Seq<char>) -> bool {
    match v {
        DataNode::Str(s) => dep_allows(s@, target),
        DataNode::Arr(items) => items@.len() == 0 || exists|i: int|
            0 <= i < items@.len() && #[trigger] item_allows(items@[i], target),
        _ => true,
    }
}

/// The requirement strings that `value_allows` evaluates (alternatives are tried in
/// order until one admits the target) never diverge.
pub open spec fn value_safe(v: DataNode, target: Seq<char>) -> bool {
    match v {
        DataNode::Str(s) => !dep_diverges(s@, target),
        DataNode::Arr(items) => forall|i: int|
            0 <= i < items@.len() && (forall|j: int| 0 <= j < i ==> !#[trigger] item_allows(items@[j], target))
                ==> (#[trigger] node_str(items@[i]) matches Some(s) ==> !dep_diverges(s, target)),
        _ => true,
    }
}

fn fabric_minecraft_value_allows(v: &DataNode, target_mc: &str) -> (r: Result<bool, String>)
    requires
        value_safe(*v, target_mc@),
    ensures
        r == Ok::<bool, String>(value_allows(*v, target_mc@)),
{
    match v {
        DataNode::Str(s) => Ok(minecraft_dep_allows(s.as_str(), target_mc)),
        DataNode::Arr(items) => {
            if items.len() == 0 {
                return Ok(true);
            }
            let mut i: usize = 0;
            while i < items.len()
                invariant
                    *v == DataNode::Arr(*items),
                    value_safe(*v, target_mc@),
                    i <= items@.len(),
                    forall|j: int| 0 <= j < i ==> !#[trigger] item_allows(items@[j], target_mc@),
                decreases items@.len() - i,
            {
                let ok = match items[i].as_str() {
                    Some(s) => {
                        proof {
                            assert(node_str(items@[ix(i)]) matches Some(x));
                        }
                        minecraft_dep_allows(s.as_str(), target_mc)
                    },
                    None => false,
                };
                if ok {
                    proof {
                        assert(item_allows(items@[ix(i)], target_mc@));
                    }
                    return Ok(true);
                }
                i = i + 1;
            }
            Ok(false)
        },
        _ => Ok(true),
    }
}

pub open spec fn fabric_msg(target: Seq<char>) -> Seq<char> {
    "fabric.mod.json minecraft dependency does not allow target "@ + target
}

pub open spec fn quilt_msg(target: Seq<char>) -> Seq<char> {
    "quilt.mod.json minecraft dependency does not allow target "@ + target
}

/// `verify_fabric_json` on a parsed document: the error message, if any.
pub open spec fn fabric_doc_error(root: DataNode, target: Seq<char>) -> Option<Seq<char>> {
    match node_get(root, "depends"@) {
        Some(deps) => match node_get(deps, "minecraft"@) {
            Some(mc) => if value_allows(mc, target) {
                None
            } else {
                Some(fabric_msg(target))
            },
            None => None,
        },
        None => None,
    }
}

pub open spec fn fabric_doc_safe(root: DataNode, target: Seq<char>) -> bool {
    node_get(root, "depends"@) matches Some(deps) ==> (node_get(deps, "minecraft"@) matches Some(mc)
        ==> value_safe(mc, target))
}

pub open spec fn outcome(r: Result<(), String>) -> Option<Seq<char>> {
    match r {
        Ok(_) => None,
        Err(m) => Some(m@),
    }
}

fn message(lit: &str, target: &str) -> (r: String)
    ensures
        r@ == lit@ + target@,
{
    let mut m = String::from_str(lit);
    m.append(target);
    m
}

/// Checks a parsed `fabric.mod.json`: its `depends.minecraft` must admit the target.
pub fn verify_fabric_doc(root: &DataNode, target_mc: &str) -> (r: Result<(), String>)
    requires
        fabric_doc_safe(*root, target_mc@),
    ensures
        outcome(r) == fabric_doc_error(*root, target_mc@),
{
    if let Some(deps) = root.get("depends") {
        if let Some(mc) = deps.get("minecraft") {
            let ok = fabric_minecraft_value_allows(mc, target_mc)?;
            if !ok {
                return Err(
                    message("fabric.mod.json minecraft dependency does not allow target ", target_mc),
                );
            }
        }
    }
    Ok(())
}

/// The first minecraft entry of a Quilt dependency array whose version does not
/// admit the target, searching from position `i`.
pub open spec fn quilt_items_fail(items: Seq<DataNode>, target: Seq<char>, i: int) -> bool
    decreases items.len() - i,
{
    if 0 <= i < items.len() {
        let item = items[i];
        let ver = match node_get(item, "versions"@) {
            Some(x) => Some(x),
            None => node_get(item, "version"@),
        };
        if get_str(item, "id"@) == Some("minecraft"@) && ver is Some && !value_allows(ver->0, target) {
            true
        } else {
            quilt_items_fail(items, target, i + 1)
        }
    } else {
        false
    }
}

pub open spec fn quilt_items_safe(items: Seq<DataNode>, target: Seq<char>, i: int) -> bool
    decreases items.len() - i,
{
    if 0 <= i < items.len() {
        let item = items[i];
        let ver = match node_get(item, "versions"@) {
            Some(x) => Some(x),
            None => node_get(item, "version"@),
        };
        if get_str(item, "id"@) == Some("minecraft"@) && ver is Some {
            value_safe(ver->0, target) && (value_allows(ver->0, target) ==> quilt_items_safe(
                items,
                target,
                i + 1,
            ))
        } else {
            quilt_items_safe(items, target, i + 1)
        }
    } else {
        true
    }
}

/// The dependency block of a Quilt document: `quilt_loader.depends`, else `depends`.
pub open spec fn quilt_deps(root: DataNode) -> Option<DataNode> {
    match node_get(root, "quilt_loader"@) {
        Some(q) => match node_get(q, "depends"@) {
            Some(d) => Some(d),
            None => node_get(root, "depends"@),
        },
        None => node_get(root, "depends"@),
    }
}

/// `verify_quilt_json` on a parsed document: the error message, if any.
pub open spec fn quilt_doc_error(root: DataNode, target: Seq<char>) -> Option<Seq<char>> {
    match quilt_deps(root) {
        Some(DataNode::Obj(o)) => match lookup_from(o@, "minecraft"@, 0) {
            Some(mc) => if value_allows(mc, target) {
                None
            } else {
                Some(quilt_msg(target))
            },
            None => None,
        },
        Some(DataNode::Arr(items)) => if quilt_items_fail(items@, target, 0) {
            Some(quilt_msg(target))
        } else {
            None
        },
        _ => None,
    }
}

pub open spec fn quilt_doc_safe(root: DataNode, target: Seq<char>) -> bool {
    match quilt_deps(root) {
        Some(DataNode::Obj(o)) => lookup_from(o@, "minecraft"@, 0) matches Some(mc) ==> value_safe(
            mc,
            target,
        ),
        Some(DataNode::Arr(items)) => quilt_items_safe(items@, target, 0),
        _ => true,
    }
}

/// Checks a parsed `quilt.mod.json`: its minecraft dependency (object or array form)
/// must admit the target.
pub fn verify_quilt_doc(root: &DataNode, target_mc: &str) -> (r: Result<(), String>)
    requires
        quilt_doc_safe(*root, target_mc@),
    ensures
        outcome(r) == quilt_doc_error(*root, target_mc@),
{
    let deps = match root.get("quilt_loader") {
        Some(q) => match q.get("depends") {
            Some(d) => Some(d),
            None => root.get("depends"),
        },
        None => root.get("depends"),
    };
    proof {
        assert(deps matches Some(d) ==> quilt_deps(*root) == Some(*d));
    }
    if let Some(deps) = deps {
        match deps {
            DataNode::Obj(_) => {
                if let Some(mc) = deps.get("minecraft") {
                    let ok = fabric_minecraft_value_allows(mc, target_mc)?;
                    if !ok {
                        return Err(
                            message(
                                "quilt.mod.json minecraft dependency does not allow target ",
                                target_mc,
                            ),
                        );
                    }
                }
            },
            DataNode::Arr(items) => {
                let mut i: usize = 0;
                while i < items.len()
                    invariant
                        *deps == DataNode::Arr(*items),
                        quilt_deps(*root) == Some(*deps),
                        i <= items@.len(),
                        quilt_items_safe(items@, target_mc@, i as int),
                        quilt_items_fail(items@, target_mc@, i as int) == quilt_items_fail(
                            items@,
                            target_mc@,
                            0,
                        ),
                    decreases items@.len() - i,
                {
                    let item = &items[i];
                    let id = item.get_str("id");
                    let is_mc = match id {
                        Some(x) => *x == String::from_str("minecraft"),
                        None => false,
                    };
                    if is_mc {
                        let ver = match item.get("versions") {
                            Some(x) => Some(x),
                            None => item.get("version"),
                        };
                        if let Some(ver) = ver {
                            let ok = fabric_minecraft_value_allows(ver, target_mc)?;
                            if !ok {
                                proof {
                                    assert(*item == items@[ix(i)]);
                                    assert(quilt_items_fail(items@, target_mc@, ix(i)));
                                }
                                return Err(
                                    message(
                                        "quilt.mod.json minecraft dependency does not allow target ",
                                        target_mc,
                                    ),
                                );
                            }
                        }
                    }
                    i = i + 1;
                }
            },
            _ => {},
        }
    }
    Ok(())
}


/// `format!("{:?}", s)`: the `Debug` rendering of a string.
pub uninterp spec fn debug_quoted(s: Seq<char>) -> Seq<char>;

/// Renders `s` with `str`'s `Debug` formatting (quoted, with escapes); the text is
/// named by `debug_quoted`, not spelled out.
#[verifier::external_body]
fn debug_str(s: &str) -> (r: String)
    ensures
        r@ == debug_quoted(s@),
{
    format!("{:?}", s)
}

pub open spec fn toml_msg(range: Seq<char>, target: Seq<char>) -> Seq<char> {
    "mods.toml minecraft versionRange "@ + debug_quoted(range) + " does not allow "@ + target
}

/// The check a single table makes: a `modId` of `minecraft` (any case) with a non-empty
/// `versionRange` that does not admit the target.
pub open spec fn toml_table_error(t: DataNode, target: Seq<char>) -> Option<Seq<char>> {
    if get_str(t, "modId"@) matches Some(id) && eq_ignore_case(id, "minecraft"@) {
        match get_str(t, "versionRange"@) {
            Some(r) => if r.len() > 0 && !maven_allows(r, target) {
                Some(toml_msg(r, target))
            } else {
                None
            },
            None => None,
        }
    } else {
        None
    }
}

pub open spec fn toml_table_safe(t: DataNode, target: Seq<char>) -> bool {
    get_str(t, "modId"@) matches Some(id) && eq_ignore_case(id, "minecraft"@) ==> (get_str(
        t,
        "versionRange"@,
    ) matches Some(r) ==> (r.len() > 0 ==> !maven_diverges(r, target)))
}

/// `scan_toml_tables_for_minecraft`: the first failing table in document order
/// (a table before its members, members and elements in order).
pub open spec fn toml_scan(v: DataNode, target: Seq<char>) -> Option<Seq<char>>
    decreases v, 0nat,
{
    match v {
        DataNode::Obj(e) => match toml_table_error(v, target) {
            Some(m) => Some(m),
            None => toml_scan_entries(e@, target, 0),
        },
        DataNode::Arr(items) => toml_scan_items(items@, target, 0),
        _ => None,
    }
}

pub open spec fn toml_scan_entries(e: Seq<(String, DataNode)>, target: Seq<char>, i: int) -> Option<
    Seq<char>,
>
    decreases e, e.len() - i,
{
    if 0 <= i < e.len() {
        match toml_scan(e[i].1, target) {
            Some(m) => Some(m),
            None => toml_scan_entries(e, target, i + 1),
        }
    } else {
        None
    }
}

pub open spec fn toml_scan_items(items: Seq<DataNode>, target: Seq<char>, i: int) -> Option<
    Seq<char>,
>
    decreases items, items.len() - i,
{
    if 0 <= i < items.len() {
        match toml_scan(items[i], target) {
            Some(m) => Some(m),
            None => toml_scan_items(items, target, i + 1),
        }
    } else {
        None
    }
}

/// Every version range that the scan evaluates (up to the first failure) is one on which
/// the interval check terminates.
pub open spec fn toml_safe(v: DataNode, target: Seq<char>) -> bool
    decreases v, 0nat,
{
    match v {
        DataNode::Obj(e) => toml_table_safe(v, target) && (toml_table_error(v, target) is None
            ==> toml_entries_safe(e@, target, 0)),
        DataNode::Arr(items) => toml_items_safe(items@, target, 0),
        _ => true,
    }
}

pub open spec fn toml_entries_safe(e: Seq<(String, DataNode)>, target: Seq<char>, i: int) -> bool
    decreases e, e.len() - i,
{
    if 0 <= i < e.len() {
        toml_safe(e[i].1, target) && (toml_scan(e[i].1, target) is None ==> toml_entries_safe(
            e,
            target,
            i + 1,
        ))
    } else {
        true
    }
}

pub open spec fn toml_items_safe(items: Seq<DataNode>, target: Seq<char>, i: int) -> bool
    decreases items, items.len() - i,
{
    if 0 <= i < items.len() {
        toml_safe(items[i], target) && (toml_scan(items[i], target) is None ==> toml_items_safe(
            items,
            target,
            i + 1,
        ))
    } else {
        true
    }
}

fn toml_table_check(t: &DataNode, target_mc: &str) -> (r: Result<(), String>)
    requires
        toml_table_safe(*t, target_mc@),
    ensures
        outcome(r) == toml_table_error(*t, target_mc@),
{
    let is_mc = match t.get_str("modId") {
        Some(id) => {
            let idc = chars_of(id.as_str());
            let mc = chars_of("minecraft");
            chars_eq_ignore_case(idc.as_slice(), mc.as_slice())
        },
        None => false,
    };
    if is_mc {
        if let Some(r) = t.get_str("versionRange") {
            if !r.as_str().is_empty() && !forge_version_range_allows(r.as_str(), target_mc) {
                let mut m = String::from_str("mods.toml minecraft versionRange ");
                let d = debug_str(r.as_str());
                m.append(d.as_str());
                m.append(" does not allow ");
                m.append(target_mc);
                return Err(m);
            }
        }
    }
    Ok(())
}

/// Walks a parsed `mods.toml`: any table with `modId = "minecraft"` must have a
/// `versionRange` (when present and non-empty) that admits the target.
pub fn scan_toml_tables_for_minecraft(v: &DataNode, target_mc: &str) -> (r: Result<(), String>)
    requires
        toml_safe(*v, target_mc@),
    ensures
        outcome(r) == toml_scan(*v, target_mc@),
    decreases v,
{
    match v {
        DataNode::Obj(e) => {
            toml_table_check(v, target_mc)?;
            let mut i: usize = 0;
            while i < e.len()
                invariant
                    *v == DataNode::Obj(*e),
                    toml_table_error(*v, target_mc@) is None,
                    i <= e@.len(),
                    toml_entries_safe(e@, target_mc@, i as int),
                    toml_scan_entries(e@, target_mc@, i as int) == toml_scan_entries(
                        e@,
                        target_mc@,
                        0,
                    ),
                decreases e@.len() - i,
            {
                proof {
                    assert(decreases_to!(*v => e@[i as int].1));
                }
                scan_toml_tables_for_minecraft(&e[i].1, target_mc)?;
                i = i + 1;
            }
            Ok(())
        },
        DataNode::Arr(items) => {
            let mut i: usize = 0;
            while i < items.len()
                invariant
                    *v == DataNode::Arr(*items),
                    i <= items@.len(),
                    toml_items_safe(items@, target_mc@, i as int),
                    toml_scan_items(items@, target_mc@, i as int) == toml_scan_items(
                        items@,
                        target_mc@,
                        0,
                    ),
                decreases items@.len() - i,
            {
                proof {
                    assert(decreases_to!(*v => items@[i as int]));
                }
                scan_toml_tables_for_minecraft(&items[i], target_mc)?;
                i = i + 1;
            }
            Ok(())
        },
        _ => Ok(()),
    }
}


fn value_is_safe(v: &DataNode, target_mc: &str) -> (r: bool)
    ensures
        r == value_safe(*v, target_mc@),
{
    match v {
        DataNode::Str(s) => !minecraft_dep_diverges(s.as_str(), target_mc),
        DataNode::Arr(items) => {
            let mut i: usize = 0;
            while i < items.len()
                invariant
                    *v == DataNode::Arr(*items),
                    i <= items@.len(),
                    forall|j: int| 0 <= j < i ==> !#[trigger] item_allows(items@[j], target_mc@),
                    forall|k: int|
                        0 <= k < i ==> (#[trigger] node_str(items@[k]) matches Some(s) ==> !dep_diverges(
                            s,
                            target_mc@,
                        )),
                decreases items@.len() - i,
            {
                if let Some(s) = items[i].as_str() {
                    proof {
                        assert(node_str(items@[ix(i)]) == Some(s@));
                    }
                    if minecraft_dep_diverges(s.as_str(), target_mc) {
                        return false;
                    }
                    if minecraft_dep_allows(s.as_str(), target_mc) {
                        proof {
                            assert(item_allows(items@[ix(i)], target_mc@));
                        }
                        return true;
                    }
                }
                i = i + 1;
            }
            true
        },
        _ => true,
    }
}

fn fabric_doc_is_safe(root: &DataNode, target_mc: &str) -> (r: bool)
    ensures
        r == fabric_doc_safe(*root, target_mc@),
{
    match root.get("depends") {
        Some(deps) => match deps.get("minecraft") {
            Some(mc) => value_is_safe(mc, target_mc),
            None => true,
        },
        None => true,
    }
}

fn quilt_doc_is_safe(root: &DataNode, target_mc: &str) -> (r: bool)
    ensures
        r == quilt_doc_safe(*root, target_mc@),
{
    let deps = match root.get("quilt_loader") {
        Some(q) => match q.get("depends") {
            Some(d) => Some(d),
            None => root.get("depends"),
        },
        None => root.get("depends"),
    };
    proof {
        assert(deps matches Some(d) ==> quilt_deps(*root) == Some(*d));
    }
    match deps {
        Some(deps) => match deps {
            DataNode::Obj(_) => match deps.get("minecraft") {
                Some(mc) => value_is_safe(mc, target_mc),
                None => true,
            },
            DataNode::Arr(items) => {
                let mut i: usize = 0;
                while i < items.len()
                    invariant
                        *deps == DataNode::Arr(*items),
                        quilt_deps(*root) == Some(*deps),
                        i <= items@.len(),
                        quilt_items_safe(items@, target_mc@, i as int) == quilt_items_safe(
                            items@,
                            target_mc@,
                            0,
                        ),
                    decreases items@.len() - i,
                {
                    let item = &items[i];
                    let id = item.get_str("id");
                    let is_mc = match id {
                        Some(x) => *x == String::from_str("minecraft"),
                        None => false,
                    };
                    if is_mc {
                        let ver = match item.get("versions") {
                            Some(x) => Some(x),
                            None => item.get("version"),
                        };
                        if let Some(ver) = ver {
                            if !value_is_safe(ver, target_mc) {
                                return false;
                            }
                            if let Ok(false) = fabric_minecraft_value_allows(ver, target_mc) {
                                return true;
                            }
                        }
                    }
                    i = i + 1;
                }
                true
            },
            _ => true,
        },
        None => true,
    }
}

fn toml_table_is_safe(t: &DataNode, target_mc: &str) -> (r: bool)
    ensures
        r == toml_table_safe(*t, target_mc@),
{
    let is_mc = match t.get_str("modId") {
        Some(id) => {
            let idc = chars_of(id.as_str());
            let mc = chars_of("minecraft");
            chars_eq_ignore_case(idc.as_slice(), mc.as_slice())
        },
        None => false,
    };
    if is_mc {
        if let Some(r) = t.get_str("versionRange") {
            if !r.as_str().is_empty() && maven_interval_diverges(r.as_str(), target_mc) {
                return false;
            }
        }
    }
    true
}

fn toml_is_safe(v: &DataNode, target_mc: &str) -> (r: bool)
    ensures
        r == toml_safe(*v, target_mc@),
    decreases v,
{
    match v {
        DataNode::Obj(e) => {
            if !toml_table_is_safe(v, target_mc) {
                return false;
            }
            if toml_table_check(v, target_mc).is_err() {
                return true;
            }
            let mut i: usize = 0;
            while i < e.len()
                invariant
                    *v == DataNode::Obj(*e),
                    toml_table_safe(*v, target_mc@),
                    toml_table_error(*v, target_mc@) is None,
                    i <= e@.len(),
                    toml_entries_safe(e@, target_mc@, i as int) == toml_entries_safe(
                        e@,
                        target_mc@,
                        0,
                    ),
                decreases e@.len() - i,
            {
                proof {
                    assert(decreases_to!(*v => e@[i as int].1));
                }
                if !toml_is_safe(&e[i].1, target_mc) {
                    return false;
                }
                if scan_toml_tables_for_minecraft(&e[i].1, target_mc).is_err() {
                    return true;
                }
                i = i + 1;
            }
            true
        },
        DataNode::Arr(items) => {
            let mut i: usize = 0;
            while i < items.len()
                invariant
                    *v == DataNode::Arr(*items),
                    i <= items@.len(),
                    toml_items_safe(items@, target_mc@, i as int) == toml_items_safe(
                        items@,
                        target_mc@,
                        0,
                    ),
                decreases items@.len() - i,
            {
                proof {
                    assert(i < items@.len());
                    assert(decreases_to!(*items => items@[i as int]));
                    assert(decreases_to!(*v => (*v)->Arr_0));
                    assert(decreases_to!(*v => items@[i as int]));
                }
                if !toml_is_safe(&items[i], target_mc) {
                    return false;
                }
                if scan_toml_tables_for_minecraft(&items[i], target_mc).is_err() {
                    return true;
                }
                i = i + 1;
            }
            true
        },
        _ => true,
    }
}

/// `verify_fabric_json`: the parsed document's error, or the parse error.
pub open spec fn fabric_json_error(text: Seq<char>, target: Seq<char>) -> Option<Seq<char>> {
    match json_parse(text) {
        Ok(d) => fabric_doc_error(d, target),
        Err(e) => Some(e),
    }
}

pub open spec fn fabric_json_safe(text: Seq<char>, target: Seq<char>) -> bool {
    json_parse(text) matches Ok(d) ==> fabric_doc_safe(d, target)
}

/// `verify_quilt_json`: the parsed document's error, or the parse error.
pub open spec fn quilt_json_error(text: Seq<char>, target: Seq<char>) -> Option<Seq<char>> {
    match json_parse(text) {
        Ok(d) => quilt_doc_error(d, target),
        Err(e) => Some(e),
    }
}

pub open spec fn quilt_json_safe(text: Seq<char>, target: Seq<char>) -> bool {
    json_parse(text) matches Ok(d) ==> quilt_doc_safe(d, target)
}

/// `verify_mods_toml_minecraft`: the parsed document's error, or the parse error.
pub open spec fn mods_toml_error(text: Seq<char>, target: Seq<char>) -> Option<Seq<char>> {
    match toml_parse(text) {
        Ok(d) => toml_scan(d, target),
        Err(e) => Some(e),
    }
}

pub open spec fn mods_toml_safe(text: Seq<char>, target: Seq<char>) -> bool {
    toml_parse(text) matches Ok(d) ==> toml_safe(d, target)
}

/// Checks the text of a `fabric.mod.json`: it must parse, and its `depends.minecraft`
/// must admit the target.
pub fn verify_fabric_json(text: &str, target_mc: &str) -> (r: Result<(), String>)
    requires
        fabric_json_safe(text@, target_mc@),
    ensures
        outcome(r) == fabric_json_error(text@, target_mc@),
{
    match parse_json(text) {
        Ok(d) => verify_fabric_doc(&d, target_mc),
        Err(e) => Err(e),
    }
}

/// Checks the text of a `quilt.mod.json`: it must parse, and its minecraft dependency
/// must admit the target.
pub fn verify_quilt_json(text: &str, target_mc: &str) -> (r: Result<(), String>)
    requires
        quilt_json_safe(text@, target_mc@),
    ensures
        outcome(r) == quilt_json_error(text@, target_mc@),
{
    match parse_json(text) {
        Ok(d) => verify_quilt_doc(&d, target_mc),
        Err(e) => Err(e),
    }
}

/// Checks the text of a `mods.toml`: it must parse, and its minecraft `versionRange`
/// must admit the target.
pub fn verify_mods_toml_minecraft(text: &str, target_mc: &str) -> (r: Result<(), String>)
    requires
        mods_toml_safe(text@, target_mc@),
    ensures
        outcome(r) == mods_toml_error(text@, target_mc@),
{
    match parse_toml(text) {
        Ok(d) => scan_toml_tables_for_minecraft(&d, target_mc),
        Err(e) => Err(e),
    }
}

/// `verify_fabric_json`, or `None` where it would never return.
pub fn try_verify_fabric_json(text: &str, target_mc: &str) -> (r: Option<Result<(), String>>)
    ensures
        match r {
            None => !fabric_json_safe(text@, target_mc@),
            Some(x) => fabric_json_safe(text@, target_mc@) && outcome(x) == fabric_json_error(
                text@,
                target_mc@,
            ),
        },
{
    if let Ok(d) = parse_json(text) {
        if !fabric_doc_is_safe(&d, target_mc) {
            return None;
        }
    }
    Some(verify_fabric_json(text, target_mc))
}

/// `verify_quilt_json`, or `None` where it would never return.
pub fn try_verify_quilt_json(text: &str, target_mc: &str) -> (r: Option<Result<(), String>>)
    ensures
        match r {
            None => !quilt_json_safe(text@, target_mc@),
            Some(x) => quilt_json_safe(text@, target_mc@) && outcome(x) == quilt_json_error(
                text@,
                target_mc@,
            ),
        },
{
    if let Ok(d) = parse_json(text) {
        if !quilt_doc_is_safe(&d, target_mc) {
            return None;
        }
    }
    Some(verify_quilt_json(text, target_mc))
}

/// `verify_mods_toml_minecraft`, or `None` where it would never return.
pub fn try_verify_mods_toml_minecraft(text: &str, target_mc: &str) -> (r: Option<
    Result<(), String>,
>)
    ensures
        match r {
            None => !mods_toml_safe(text@, target_mc@),
            Some(x) => mods_toml_safe(text@, target_mc@) && outcome(x) == mods_toml_error(
                text@,
                target_mc@,
            ),
        },
{
    if let Ok(d) = parse_toml(text) {
        if !toml_is_safe(&d, target_mc) {
            return None;
        }
    }
    Some(verify_mods_toml_minecraft(text, target_mc))
}

/// A metadata file's verdict inside a jar check: its document's error; nothing when it
/// does not parse (it cannot be verified).
pub open spec fn parsed_error(p: Result<DataNode, Seq<char>>, err: Option<Seq<char>>) -> Option<Seq<char>> {
    match p {
        Ok(_) => err,
        Err(_) => None,
    }
}

/// `verify_update_jar` once the jar's metadata files are read (each present when it is a
/// readable UTF-8 file): the first present among `fabric.mod.json`, `quilt.mod.json`,
/// `META-INF/mods.toml` and `META-INF/neoforge.mods.toml` decides. A file that does not
/// parse, like a jar with none of them, cannot be verified and passes.
pub open spec fn jar_check_error(
    fabric: Option<String>,
    quilt: Option<String>,
    mods_toml: Option<String>,
    neoforge_toml: Option<String>,
    target: Seq<char>,
) -> Option<Seq<char>> {
    if fabric is Some {
        parsed_error(json_parse(fabric->0@), fabric_json_error(fabric->0@, target))
    } else if quilt is Some {
        parsed_error(json_parse(quilt->0@), quilt_json_error(quilt->0@, target))
    } else if mods_toml is Some {
        parsed_error(toml_parse(mods_toml->0@), mods_toml_error(mods_toml->0@, target))
    } else if neoforge_toml is Some {
        parsed_error(toml_parse(neoforge_toml->0@), mods_toml_error(neoforge_toml->0@, target))
    } else {
        None
    }
}

pub open spec fn jar_check_safe(
    fabric: Option<String>,
    quilt: Option<String>,
    mods_toml: Option<String>,
    neoforge_toml: Option<String>,
    target: Seq<char>,
) -> bool {
    if fabric is Some {
        fabric_json_safe(fabric->0@, target)
    } else if quilt is Some {
        quilt_json_safe(quilt->0@, target)
    } else if mods_toml is Some {
        mods_toml_safe(mods_toml->0@, target)
    } else if neoforge_toml is Some {
        mods_toml_safe(neoforge_toml->0@, target)
    } else {
        true
    }
}

/// Decides a downloaded jar's compatibility from the texts of its metadata files.
/// `Err` only on a clear mismatch: a declared Minecraft dependency that does not admit
/// `target_mc`; `Ok(())` when it admits it or nothing can be verified.
pub fn check_jar_metadata(
    fabric: &Option<String>,
    quilt: &Option<String>,
    mods_toml: &Option<String>,
    neoforge_toml: &Option<String>,
    target_mc: &str,
) -> (r: Result<(), String>)
    requires
        jar_check_safe(*fabric, *quilt, *mods_toml, *neoforge_toml, target_mc@),
    ensures
        outcome(r) == jar_check_error(*fabric, *quilt, *mods_toml, *neoforge_toml, target_mc@),
{
    if let Some(t) = fabric {
        return match parse_json(t.as_str()) {
            Ok(d) => verify_fabric_doc(&d, target_mc),
            Err(_) => Ok(()),
        };
    }
    if let Some(t) = quilt {
        return match parse_json(t.as_str()) {
            Ok(d) => verify_quilt_doc(&d, target_mc),
            Err(_) => Ok(()),
        };
    }
    if let Some(t) = mods_toml {
        return match parse_toml(t.as_str()) {
            Ok(d) => scan_toml_tables_for_minecraft(&d, target_mc),
            Err(_) => Ok(()),
        };
    }
    if let Some(t) = neoforge_toml {
        return match parse_toml(t.as_str()) {
            Ok(d) => scan_toml_tables_for_minecraft(&d, target_mc),
            Err(_) => Ok(()),
        };
    }
    Ok(())
}

/// `check_jar_metadata`, or `None` where it would never return (a dependency string on
/// which the requirement parser recurses forever).
pub fn try_check_jar_metadata(
    fabric: &Option<String>,
    quilt: &Option<String>,
    mods_toml: &Option<String>,
    neoforge_toml: &Option<String>,
    target_mc: &str,
) -> (r: Option<Result<(), String>>)
    ensures
        match r {
            None => !jar_check_safe(*fabric, *quilt, *mods_toml, *neoforge_toml, target_mc@),
            Some(x) => jar_check_safe(*fabric, *quilt, *mods_toml, *neoforge_toml, target_mc@)
                && outcome(x) == jar_check_error(*fabric, *quilt, *mods_toml, *neoforge_toml, target_mc@),
        },
{
    let safe = if let Some(t) = fabric {
        match parse_json(t.as_str()) {
            Ok(d) => fabric_doc_is_safe(&d, target_mc),
            Err(_) => true,
        }
    } else if let Some(t) = quilt {
        match parse_json(t.as_str()) {
            Ok(d) => quilt_doc_is_safe(&d, target_mc),
            Err(_) => true,
        }
    } else if let Some(t) = mods_toml {
        match parse_toml(t.as_str()) {
            Ok(d) => toml_is_safe(&d, target_mc),
            Err(_) => true,
        }
    } else if let Some(t) = neoforge_toml {
        match parse_toml(t.as_str()) {
            Ok(d) => toml_is_safe(&d, target_mc),
            Err(_) => true,
        }
    } else {
        true
    };
    if safe {
        Some(check_jar_metadata(fabric, quilt, mods_toml, neoforge_toml, target_mc))
    } else {
        None
    }
}

} // verus!
