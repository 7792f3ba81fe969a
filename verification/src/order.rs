//! The order of strings, and vectors of strings kept sorted without
//! repetition, which is how the server holds a session's devices and the
//! saved selection.

use vstd::prelude::*;
use crate::protocol::views;
use crate::text::{lex_lt, str_lt, str_eq};

verus! {

/// No string comes before itself.
pub proof fn lemma_lex_irreflexive(a: Seq<char>)
    ensures
        !lex_lt(a, a),
    decreases a.len(),
{
    if a.len() > 0 {
        lemma_lex_irreflexive(a.drop_first());
    }
}

/// The order of strings is transitive.
pub proof fn lemma_lex_transitive(a: Seq<char>, b: Seq<char>, c: Seq<char>)
    requires
        lex_lt(a, b),
        lex_lt(b, c),
    ensures
        lex_lt(a, c),
    decreases a.len(),
{
    if a.len() > 0 && b.len() > 0 && c.len() > 0 {
        if a[0] == b[0] && b[0] == c[0] {
            lemma_lex_transitive(a.drop_first(), b.drop_first(), c.drop_first());
        }
    }
}

/// Of two different strings, one comes before the other.
pub proof fn lemma_lex_total(a: Seq<char>, b: Seq<char>)
    ensures
        a == b || lex_lt(a, b) || lex_lt(b, a),
    decreases a.len(),
{
    if a.len() > 0 && b.len() > 0 {
        if a[0] == b[0] {
            lemma_lex_total(a.drop_first(), b.drop_first());
            if a.drop_first() == b.drop_first() {
                assert(a =~= seq![a[0]] + a.drop_first());
                assert(b =~= seq![b[0]] + b.drop_first());
            }
        }
    } else if a.len() == 0 && b.len() == 0 {
        assert(a =~= b);
    }
}

/// Only one of two strings comes first.
pub proof fn lemma_lex_asymmetric(a: Seq<char>, b: Seq<char>)
    requires
        lex_lt(a, b),
    ensures
        !lex_lt(b, a),
{
    if lex_lt(b, a) {
        lemma_lex_transitive(a, b, a);
        lemma_lex_irreflexive(a);
    }
}

/// Each string comes strictly before every later one: sorted, and no
/// string twice.
pub open spec fn strictly_sorted(s: Seq<Seq<char>>) -> bool {
    forall|i: int, j: int| 0 <= i < j < s.len() ==> lex_lt(#[trigger] s[i], #[trigger] s[j])
}

/// Two sorted sequences without repetition that hold the same strings are
/// the same sequence.
pub proof fn lemma_sorted_unique(a: Seq<Seq<char>>, b: Seq<Seq<char>>)
    requires
        strictly_sorted(a),
        strictly_sorted(b),
        a.to_set() == b.to_set(),
    ensures
        a == b,
    decreases a.len(),
{
    if a.len() == 0 {
        if b.len() > 0 {
            assert(b.to_set().contains(b[0]));
            assert(!a.to_set().contains(b[0]));
        }
        assert(a =~= b);
    } else if b.len() == 0 {
        assert(a.to_set().contains(a[0]));
    } else {
        // The first strings are the least of the set, hence equal.
        assert(b.to_set().contains(a[0]));
        assert(a.to_set().contains(b[0]));
        let i = choose|i: int| 0 <= i < b.len() && b[i] == a[0];
        let j = choose|j: int| 0 <= j < a.len() && a[j] == b[0];
        if i > 0 {
            assert(lex_lt(b[0], b[i]));
            if j > 0 {
                assert(lex_lt(a[0], a[j]));
                lemma_lex_asymmetric(b[0], a[0]);
            } else {
                lemma_lex_irreflexive(a[0]);
            }
        }
        assert(a[0] == b[0]);
        let a1 = a.drop_first();
        let b1 = b.drop_first();
        assert forall|x: Seq<char>| a1.to_set().contains(x) implies b1.to_set().contains(x) by {
            let k = choose|k: int| 0 <= k < a1.len() && a1[k] == x;
            assert(a[k + 1] == x);
            assert(lex_lt(a[0], a[k + 1]));
            assert(b.to_set().contains(x));
            let m = choose|m: int| 0 <= m < b.len() && b[m] == x;
            if m == 0 {
                lemma_lex_irreflexive(x);
            }
            assert(b1[m - 1] == x);
        }
        assert forall|x: Seq<char>| b1.to_set().contains(x) implies a1.to_set().contains(x) by {
            let k = choose|k: int| 0 <= k < b1.len() && b1[k] == x;
            assert(b[k + 1] == x);
            assert(lex_lt(b[0], b[k + 1]));
            assert(a.to_set().contains(x));
            let m = choose|m: int| 0 <= m < a.len() && a[m] == x;
            if m == 0 {
                lemma_lex_irreflexive(x);
            }
            assert(a1[m - 1] == x);
        }
        assert(a1.to_set() =~= b1.to_set());
        lemma_sorted_unique(a1, b1);
        assert(a =~= seq![a[0]] + a1);
        assert(b =~= seq![b[0]] + b1);
    }
}

/// Adds `x` to a sorted vector without repetition, keeping it so.
pub fn insert_sorted(v: &mut Vec<String>, x: String)
    requires
        strictly_sorted(views(old(v)@)),
    ensures
        strictly_sorted(views(final(v)@)),
        views(final(v)@).to_set() == views(old(v)@).to_set().insert(x@),
{
    let ghost w = views(v@);
    let mut p: usize = 0;
    while p < v.len() && str_lt(v[p].as_str(), x.as_str())
        invariant
            p <= v.len(),
            w == views(v@),
            forall|i: int| 0 <= i < p ==> lex_lt(#[trigger] w[i], x@),
        decreases v.len() - p,
    {
        p = p + 1;
    }
    if p < v.len() && str_eq(v[p].as_str(), x.as_str()) {
        proof {
            assert(w[p as int] == x@);
            assert(w.to_set().contains(x@));
            assert(w.to_set().insert(x@) =~= w.to_set());
        }
        return;
    }
    proof {
        if p < v.len() {
            lemma_lex_total(w[p as int], x@);
            assert(lex_lt(x@, w[p as int]));
        }
    }
    v.insert(p, x);
    proof {
        let n = views(v@);
        assert(n =~= w.take(p as int).push(x@) + w.skip(p as int));
        assert forall|i: int, j: int| 0 <= i < j < n.len() implies lex_lt(#[trigger] n[i], #[trigger] n[j]) by {
            if j < p {
                assert(n[i] == w[i] && n[j] == w[j]);
            } else if j == p {
                assert(n[i] == w[i]);
            } else if i == p {
                assert(n[j] == w[j - 1]);
                if j - 1 > p {
                    assert(lex_lt(w[p as int], w[j - 1]));
                    lemma_lex_transitive(x@, w[p as int], w[j - 1]);
                }
            } else if i < p {
                assert(n[i] == w[i] && n[j] == w[j - 1]);
            } else {
                assert(n[i] == w[i - 1] && n[j] == w[j - 1]);
            }
        }
        assert forall|y: Seq<char>| n.to_set().contains(y) <==> w.to_set().insert(x@).contains(y) by {
            if n.to_set().contains(y) {
                let k = choose|k: int| 0 <= k < n.len() && n[k] == y;
                if k < p {
                    assert(w[k] == y);
                } else if k > p {
                    assert(w[k - 1] == y);
                }
            }
            if w.to_set().contains(y) {
                let k = choose|k: int| 0 <= k < w.len() && w[k] == y;
                if k < p {
                    assert(n[k] == y);
                } else {
                    assert(n[k + 1] == y);
                }
            }
            if y == x@ {
                assert(n[p as int] == y);
            }
        }
        assert(n.to_set() =~= w.to_set().insert(x@));
    }
}

/// The strings of `v`, sorted, each once.
pub fn sorted_unique(v: &Vec<String>) -> (r: Vec<String>)
    ensures
        strictly_sorted(views(r@)),
        views(r@).to_set() == views(v@).to_set(),
{
    let mut r: Vec<String> = Vec::new();
    let mut i: usize = 0;
    proof {
        assert(views(r@).to_set() =~= views(v@).take(0).to_set());
    }
    while i < v.len()
        invariant
            i <= v.len(),
            strictly_sorted(views(r@)),
            views(r@).to_set() == views(v@).take(i as int).to_set(),
        decreases v.len() - i,
    {
        insert_sorted(&mut r, v[i].clone());
        proof {
            let w = views(v@);
            let t1 = w.take(i + 1);
            let t0 = w.take(i as int);
            assert(t1 =~= t0.push(w[i as int]));
            assert forall|y: Seq<char>| t1.to_set().contains(y) implies t0.to_set().insert(
                w[i as int],
            ).contains(y) by {
                let k = choose|k: int| 0 <= k < t1.len() && #[trigger] t1[k] == y;
                if k < i {
                    assert(t0[k] == y);
                }
            }
            assert forall|y: Seq<char>| t0.to_set().insert(w[i as int]).contains(y) implies t1.to_set().contains(y) by {
                if y == w[i as int] {
                    assert(t1[i as int] == y);
                } else {
                    let k = choose|k: int| 0 <= k < t0.len() && #[trigger] t0[k] == y;
                    assert(t1[k] == y);
                }
            }
            assert(t1.to_set() =~= t0.to_set().insert(w[i as int]));
        }
        i = i + 1;
    }
    assert(views(v@).take(v.len() as int) =~= views(v@));
    r
}

} // verus!

verus! {

/// `w` with `x` put in its place, unless it is there already.
pub open spec fn ins(w: Seq<Seq<char>>, x: Seq<char>) -> Seq<Seq<char>>
    decreases w.len(),
{
    if w.len() == 0 {
        seq![x]
    } else if lex_lt(w[0], x) {
        seq![w[0]] + ins(w.drop_first(), x)
    } else if w[0] == x {
        w
    } else {
        seq![x] + w
    }
}

/// The strings of `v`, sorted, each once.
pub open spec fn sort_set(v: Seq<Seq<char>>) -> Seq<Seq<char>>
    decreases v.len(),
{
    if v.len() == 0 {
        Seq::empty()
    } else {
        ins(sort_set(v.drop_last()), v.last())
    }
}

proof fn lemma_ins(w: Seq<Seq<char>>, x: Seq<char>)
    requires
        strictly_sorted(w),
    ensures
        strictly_sorted(ins(w, x)),
        ins(w, x).to_set() == w.to_set().insert(x),
        forall|i: int| 0 <= i < ins(w, x).len() ==> (#[trigger] ins(w, x)[i] == x || w.contains(ins(w, x)[i])),
    decreases w.len(),
{
    if w.len() == 0 {
        assert(ins(w, x).to_set() =~= w.to_set().insert(x)) by {
            assert(ins(w, x)[0] == x);
        }
    } else if lex_lt(w[0], x) {
        let t = w.drop_first();
        assert forall|i: int, j: int| 0 <= i < j < t.len() implies lex_lt(#[trigger] t[i], #[trigger] t[j]) by {
            assert(t[i] == w[i + 1] && t[j] == w[j + 1]);
        }
        lemma_ins(t, x);
        let r = ins(w, x);
        let it = ins(t, x);
        assert(r == seq![w[0]] + it);
        assert forall|i: int, j: int| 0 <= i < j < r.len() implies lex_lt(#[trigger] r[i], #[trigger] r[j]) by {
            if i == 0 {
                assert(r[j] == it[j - 1]);
                if it[j - 1] != x {
                    let k = choose|k: int| 0 <= k < t.len() && t[k] == it[j - 1];
                    assert(w[k + 1] == t[k]);
                }
            } else {
                assert(r[i] == it[i - 1] && r[j] == it[j - 1]);
            }
        }
        assert forall|y: Seq<char>| r.to_set().contains(y) <==> w.to_set().insert(x).contains(y) by {
            if r.to_set().contains(y) {
                let k = choose|k: int| 0 <= k < r.len() && r[k] == y;
                if k == 0 {
                    assert(w[0] == y);
                } else {
                    assert(it[k - 1] == y);
                    assert(it.to_set().contains(y));
                    if y != x {
                        assert(t.to_set().contains(y));
                        let m = choose|m: int| 0 <= m < t.len() && t[m] == y;
                        assert(w[m + 1] == y);
                    }
                }
            }
            if w.to_set().insert(x).contains(y) {
                if y == w[0] {
                    assert(r[0] == y);
                } else {
                    assert(t.to_set().insert(x).contains(y)) by {
                        if y != x {
                            let m = choose|m: int| 0 <= m < w.len() && w[m] == y;
                            assert(t[m - 1] == y);
                        }
                    }
                    assert(it.to_set().contains(y));
                    let m = choose|m: int| 0 <= m < it.len() && it[m] == y;
                    assert(r[m + 1] == y);
                }
            }
        }
        assert(r.to_set() =~= w.to_set().insert(x));
        assert forall|i: int| 0 <= i < r.len() implies (#[trigger] r[i] == x || w.contains(r[i])) by {
            if i == 0 {
                assert(w[0] == r[0]);
            } else {
                assert(r[i] == it[i - 1]);
                if it[i - 1] != x {
                    let k = choose|k: int| 0 <= k < t.len() && t[k] == it[i - 1];
                    assert(w[k + 1] == t[k]);
                }
            }
        }
    } else if w[0] == x {
        assert(w.to_set().contains(x));
        assert(w.to_set().insert(x) =~= w.to_set());
    } else {
        lemma_lex_total(w[0], x);
        let r = ins(w, x);
        assert(r == seq![x] + w);
        assert forall|i: int, j: int| 0 <= i < j < r.len() implies lex_lt(#[trigger] r[i], #[trigger] r[j]) by {
            if i == 0 {
                assert(r[j] == w[j - 1]);
                if j - 1 > 0 {
                    lemma_lex_transitive(x, w[0], w[j - 1]);
                }
            } else {
                assert(r[i] == w[i - 1] && r[j] == w[j - 1]);
            }
        }
        assert forall|y: Seq<char>| r.to_set().contains(y) <==> w.to_set().insert(x).contains(y) by {
            if r.to_set().contains(y) {
                let k = choose|k: int| 0 <= k < r.len() && r[k] == y;
                if k > 0 {
                    assert(w[k - 1] == y);
                }
            }
            if w.to_set().contains(y) {
                let k = choose|k: int| 0 <= k < w.len() && w[k] == y;
                assert(r[k + 1] == y);
            }
            if y == x {
                assert(r[0] == y);
            }
        }
        assert(r.to_set() =~= w.to_set().insert(x));
        assert forall|i: int| 0 <= i < r.len() implies (#[trigger] r[i] == x || w.contains(r[i])) by {
            if i > 0 {
                assert(r[i] == w[i - 1]);
            }
        }
    }
}

/// Sorting the strings of a sequence yields a sorted sequence without
/// repetition that holds exactly those strings.
pub proof fn lemma_sort_set(v: Seq<Seq<char>>)
    ensures
        strictly_sorted(sort_set(v)),
        sort_set(v).to_set() == v.to_set(),
    decreases v.len(),
{
    if v.len() == 0 {
        assert(v.to_set() =~= Set::<Seq<char>>::empty());
        assert(sort_set(v).to_set() =~= Set::<Seq<char>>::empty());
    } else {
        lemma_sort_set(v.drop_last());
        lemma_ins(sort_set(v.drop_last()), v.last());
        assert(v =~= v.drop_last().push(v.last()));
        assert forall|y: Seq<char>| v.to_set().contains(y) <==> v.drop_last().to_set().insert(v.last()).contains(y) by {
            if v.to_set().contains(y) {
                let k = choose|k: int| 0 <= k < v.len() && v[k] == y;
                if k < v.len() - 1 {
                    assert(v.drop_last()[k] == y);
                }
            }
            if v.drop_last().to_set().contains(y) {
                let k = choose|k: int| 0 <= k < v.drop_last().len() && v.drop_last()[k] == y;
                assert(v[k] == y);
            }
            if y == v.last() {
                assert(v[v.len() - 1] == y);
            }
        }
        assert(v.to_set() =~= v.drop_last().to_set().insert(v.last()));
    }
}

/// Dropping strings from a sorted sequence without repetition leaves one.
pub proof fn lemma_sorted_subsequence(xs: Seq<Seq<char>>, ys: Seq<Seq<char>>)
    requires
        strictly_sorted(xs),
    ensures
        strictly_sorted(crate::connection::without(xs, ys)),
    decreases xs.len(),
{
    if xs.len() > 0 {
        let d = xs.drop_last();
        assert forall|i: int, j: int| 0 <= i < j < d.len() implies lex_lt(#[trigger] d[i], #[trigger] d[j]) by {
            assert(d[i] == xs[i] && d[j] == xs[j]);
        }
        lemma_sorted_subsequence(d, ys);
        crate::connection::law_remaining_excludes_released(d, ys);
        let w = crate::connection::without(d, ys);
        if !ys.contains(xs.last()) {
            let r = w.push(xs.last());
            assert forall|i: int, j: int| 0 <= i < j < r.len() implies lex_lt(#[trigger] r[i], #[trigger] r[j]) by {
                if j == r.len() - 1 {
                    assert(r[i] == w[i]);
                    assert(d.contains(w[i]));
                    let k = choose|k: int| 0 <= k < d.len() && d[k] == w[i];
                    assert(xs[k] == w[i]);
                    assert(xs[xs.len() - 1] == xs.last());
                } else {
                    assert(r[i] == w[i] && r[j] == w[j]);
                }
            }
        }
    }
}

} // verus!
