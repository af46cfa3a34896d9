//! Ordering texts by their characters, and keeping sorted collections of distinct texts.

use vstd::prelude::*;
use crate::text::views;

verus! {

/// Lexicographic order of texts by characters (the order of `str`).
pub open spec fn text_lt(a: Seq<char>, b: Seq<char>) -> bool
    decreases a.len(),
{
    if b.len() == 0 {
        false
    } else if a.len() == 0 {
        true
    } else if a[0] != b[0] {
        a[0] < b[0]
    } else {
        text_lt(a.drop_first(), b.drop_first())
    }
}

/// Every text is strictly before every later one.
pub open spec fn strictly_sorted(s: Seq<Seq<char>>) -> bool {
    forall|i: int, j: int| 0 <= i < j < s.len() ==> text_lt(#[trigger] s[i], #[trigger] s[j])
}

/// The order of texts is transitive.
pub proof fn lemma_text_lt_transitive(a: Seq<char>, b: Seq<char>, c: Seq<char>)
    requires
        text_lt(a, b),
        text_lt(b, c),
    ensures
        text_lt(a, c),
    decreases a.len(),
{
    if a.len() > 0 && b.len() > 0 && c.len() > 0 {
        if a[0] == b[0] && b[0] == c[0] {
            lemma_text_lt_transitive(a.drop_first(), b.drop_first(), c.drop_first());
        }
    }
}

/// Of two different texts, one is before the other.
pub proof fn lemma_text_lt_total(a: Seq<char>, b: Seq<char>)
    requires
        a != b,
    ensures
        text_lt(a, b) || text_lt(b, a),
    decreases a.len(),
{
    if a.len() > 0 && b.len() > 0 {
        if a[0] == b[0] {
            if a.drop_first() == b.drop_first() {
                assert(a =~= seq![a[0]] + a.drop_first());
                assert(b =~= seq![b[0]] + b.drop_first());
            }
            lemma_text_lt_total(a.drop_first(), b.drop_first());
        } else {
        }
    } else if a.len() == 0 && b.len() == 0 {
        assert(a =~= b);
    }
}

/// Whether `a` comes strictly before `b`.
pub fn text_lt_exec(a: &Vec<char>, b: &Vec<char>) -> (r: bool)
    ensures
        r == text_lt(a@, b@),
{
    let mut k: usize = 0;
    assert(a@.skip(0) =~= a@);
    assert(b@.skip(0) =~= b@);
    while k < a.len() && k < b.len() && a[k] == b[k]
        invariant
            0 <= k <= a.len(),
            k <= b.len(),
            text_lt(a@, b@) == text_lt(a@.skip(k as int), b@.skip(k as int)),
        decreases a.len() - k,
    {
        assert(a@.skip(k as int).drop_first() =~= a@.skip(k + 1));
        assert(b@.skip(k as int).drop_first() =~= b@.skip(k + 1));
        k = k + 1;
    }
    if k == b.len() {
        false
    } else if k == a.len() {
        true
    } else {
        a[k] < b[k]
    }
}

/// Inserts `e` into a strictly sorted vector unless it is already there.
pub fn insert_sorted(out: &mut Vec<Vec<char>>, e: Vec<char>)
    requires
        strictly_sorted(views(old(out)@)),
    ensures
        strictly_sorted(views(final(out)@)),
        forall|t: Seq<char>|
            #[trigger] views(final(out)@).contains(t) <==> (views(old(out)@).contains(t) || t == e@),
{
    let ghost v0 = views(out@);
    let mut k: usize = 0;
    while k < out.len() && text_lt_exec(&out[k], &e)
        invariant
            0 <= k <= out.len(),
            views(out@) == v0,
            strictly_sorted(v0),
            forall|i: int| 0 <= i < k ==> text_lt(#[trigger] v0[i], e@),
        decreases out.len() - k,
    {
        assert(v0[k as int] == out@[k as int]@);
        k = k + 1;
    }
    if k < out.len() {
        assert(v0[k as int] == out@[k as int]@);
        let same = {
            let x = &out[k];
            crate::text::chars_eq(x, &e)
        };
        if same {
            assert forall|t: Seq<char>| v0.contains(t) <==> (v0.contains(t) || t == e@) by {
                if t == e@ {
                    assert(v0[k as int] == t);
                }
            }
            return;
        }
        proof {
            lemma_text_lt_total(v0[k as int], e@);
        }
    }
    let ghost ev = e@;
    out.insert(k, e);
    proof {
        let v1 = views(out@);
        assert(v1 =~= v0.insert(k as int, ev));
        assert forall|i: int, j: int| 0 <= i < j < v1.len() implies text_lt(#[trigger] v1[i], #[trigger] v1[j]) by {
            if j < k {
            } else if j == k {
            } else if i < k {
                lemma_text_lt_transitive(v0[i], ev, v0[k as int]);
                if j - 1 > k {
                    lemma_text_lt_transitive(v0[i], v0[k as int], v0[j - 1]);
                }
            } else if i == k {
                if j - 1 > k {
                    lemma_text_lt_transitive(ev, v0[k as int], v0[j - 1]);
                }
            } else {
            }
        }
        assert forall|t: Seq<char>| v1.contains(t) <==> (v0.contains(t) || t == ev) by {
            if v1.contains(t) {
                let i = choose|i: int| 0 <= i < v1.len() && v1[i] == t;
                if i < k {
                    assert(v0[i] == t);
                } else if i > k {
                    assert(v0[i - 1] == t);
                }
            }
            if v0.contains(t) {
                let i = choose|i: int| 0 <= i < v0.len() && v0[i] == t;
                if i < k {
                    assert(v1[i] == t);
                } else {
                    assert(v1[i + 1] == t);
                }
            }
            if t == ev {
                assert(v1[k as int] == t);
            }
        }
    }
}

} // verus!
