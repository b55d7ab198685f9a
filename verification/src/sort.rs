//! Stable sorting by a pair of strings, the way the mod lists are ordered.
use vstd::prelude::*;
use crate::text::{chars_eq, chars_lt, lemma_lex_order, lex_lt};

verus! {

/// A sort key: two strings compared lexicographically, the first one first.
pub type KeyView = (Seq<char>, Seq<char>);

/// `a < b` for sort keys.
pub open spec fn key_lt(a: KeyView, b: KeyView) -> bool {
    lex_lt(a.0, b.0) || (a.0 == b.0 && lex_lt(a.1, b.1))
}

/// `key_lt` is a strict total order.
pub proof fn lemma_key_order(a: KeyView, b: KeyView, c: KeyView)
    ensures
        !key_lt(a, a),
        key_lt(a, b) || key_lt(b, a) || a == b,
        !(key_lt(a, b) && key_lt(b, a)),
        key_lt(a, b) && key_lt(b, c) ==> key_lt(a, c),
{
    lemma_lex_order(a.0, b.0, c.0);
    lemma_lex_order(a.1, b.1, c.1);
    lemma_lex_order(b.0, a.0, c.0);
    lemma_lex_order(a.0, c.0, b.0);
}

/// Values ordered by a key of two strings.
pub trait SortKey: Sized {
    spec fn key(&self) -> KeyView;

    fn sort_key(&self) -> (r: (Vec<char>, Vec<char>))
        ensures
            (r.0@, r.1@) == self.key(),
    ;
}

pub open spec fn keys_sorted<T: SortKey>(s: Seq<T>) -> bool {
    forall|a: int, b: int| 0 <= a < b < s.len() ==> !key_lt(#[trigger] s[b].key(), #[trigger] s[a].key())
}

/// `out[k] == inp[perm[k]]` for a one-to-one `perm` that keeps the input order of
/// values with equal keys.
pub open spec fn stable_arrangement<T: SortKey>(out: Seq<T>, inp: Seq<T>, perm: Seq<int>) -> bool {
    &&& perm.len() == out.len()
    &&& out.len() == inp.len()
    &&& forall|k: int| 0 <= k < perm.len() ==> 0 <= #[trigger] perm[k] < inp.len() && out[k] == inp[perm[k]]
    &&& forall|a: int, b: int| 0 <= a < b < perm.len() ==> #[trigger] perm[a] != #[trigger] perm[b]
    &&& forall|a: int, b: int|
        0 <= a < b < perm.len() && #[trigger] out[a].key() == #[trigger] out[b].key() ==> perm[a] < perm[b]
}

/// `out` is `inp` sorted by key, values with equal keys in their input order.
pub open spec fn stable_sort_of<T: SortKey>(out: Seq<T>, inp: Seq<T>) -> bool {
    keys_sorted(out) && exists|perm: Seq<int>| stable_arrangement(out, inp, perm)
}

fn pair_lt(a: &(Vec<char>, Vec<char>), b: &(Vec<char>, Vec<char>)) -> (r: bool)
    ensures
        r == key_lt((a.0@, a.1@), (b.0@, b.1@)),
{
    if chars_lt(a.0.as_slice(), b.0.as_slice()) {
        true
    } else if chars_eq(a.0.as_slice(), b.0.as_slice()) {
        chars_lt(a.1.as_slice(), b.1.as_slice())
    } else {
        false
    }
}

pub open spec fn kv(k: (Vec<char>, Vec<char>)) -> KeyView {
    (k.0@, k.1@)
}

/// Sorts by key, keeping the input order of equal keys (insertion of each value after
/// every value whose key is not greater).
pub fn stable_sort<T: SortKey>(v: Vec<T>) -> (r: Vec<T>)
    ensures
        stable_sort_of(r@, v@),
{
    let ghost inp = v@;
    let n = v.len();
    let mut rest = v;
    let mut out: Vec<T> = Vec::new();
    let mut keys: Vec<(Vec<char>, Vec<char>)> = Vec::new();
    let ghost mut perm: Seq<int> = Seq::empty();
    let mut i: usize = 0;
    while i < n
        invariant
            inp.len() == n,
            i <= n,
            rest@ == inp.subrange(i as int, n as int),
            out@.len() == i,
            keys@.len() == i,
            perm.len() == i,
            forall|k: int| 0 <= k < i ==> #[trigger] kv(keys@[k]) == out@[k].key(),
            forall|k: int| 0 <= k < i ==> 0 <= #[trigger] perm[k] < i && out@[k] == inp[perm[k]],
            forall|a: int, b: int| 0 <= a < b < i ==> #[trigger] perm[a] != #[trigger] perm[b],
            keys_sorted(out@),
            forall|a: int, b: int|
                0 <= a < b < i && #[trigger] out@[a].key() == #[trigger] out@[b].key() ==> perm[a]
                    < perm[b],
        decreases n - i,
    {
        let x = rest.remove(0);
        assert(x == inp[i as int]);
        let kx = x.sort_key();
        let mut p: usize = 0;
        while p < keys.len() && !pair_lt(&kx, &keys[p])
            invariant
                p <= keys@.len(),
                forall|q: int| 0 <= q < p ==> !key_lt(kv(kx), #[trigger] kv(keys@[q])),
            decreases keys@.len() - p,
        {
            p = p + 1;
        }
        let ghost old_out = out@;
        let ghost old_perm = perm;
        proof {
            assert forall|a: int| p <= a < i implies key_lt(kv(kx), #[trigger] old_out[a].key()) by {
                assert(kv(keys@[p as int]) == old_out[p as int].key());
                lemma_key_order(kv(kx), old_out[p as int].key(), old_out[a].key());
                lemma_key_order(old_out[p as int].key(), old_out[a].key(), kv(kx));
            }
        }
        out.insert(p, x);
        keys.insert(p, kx);
        proof {
            perm = perm.insert(p as int, i as int);
            assert forall|a: int, b: int| 0 <= a < b < out@.len() implies !key_lt(
                #[trigger] out@[b].key(),
                #[trigger] out@[a].key(),
            ) by {
                lemma_key_order(out@[a].key(), out@[b].key(), kv(kx));
                if a < p && b == p {
                    assert(kv(keys@[a]) == out@[a].key());
                } else if a == p && b > p {
                    lemma_key_order(kv(kx), out@[b].key(), kv(kx));
                }
            }
            assert forall|a: int, b: int|
                0 <= a < b < out@.len() && #[trigger] out@[a].key() == #[trigger] out@[b].key()
                implies perm[a] < perm[b] by {
                if a == p {
                    lemma_key_order(kv(kx), kv(kx), kv(kx));
                }
            }
        }
        i = i + 1;
    }
    proof {
        assert(stable_arrangement(out@, inp, perm));
    }
    out
}

} // verus!
