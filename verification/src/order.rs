//! The order of `String`s, and sorting.
//!
//! `String` compares its UTF-8 bytes lexicographically, which orders
//! strings as comparing their characters by code point does; that second
//! form is the one stated here.

use vstd::prelude::*;

verus! {

broadcast use vstd::seq_lib::group_seq_properties;

/// `a` comes before `b` or equals it.
pub open spec fn lex_le(a: Seq<char>, b: Seq<char>) -> bool
    decreases a.len(),
{
    if a.len() == 0 {
        true
    } else if b.len() == 0 {
        false
    } else if a[0] != b[0] {
        (a[0] as int) < (b[0] as int)
    } else {
        lex_le(a.drop_first(), b.drop_first())
    }
}

/// Each string comes before or equals every later one.
pub open spec fn is_sorted(s: Seq<Seq<char>>) -> bool {
    forall|i: int, j: int| 0 <= i < j < s.len() ==> lex_le(#[trigger] s[i], #[trigger] s[j])
}

/// The strings of `s` in order.
pub open spec fn sorted_of(s: Seq<Seq<char>>) -> Seq<Seq<char>> {
    choose|t: Seq<Seq<char>>| is_sorted(t) && t.to_multiset() == s.to_multiset()
}

pub proof fn lemma_lex_total(a: Seq<char>, b: Seq<char>)
    ensures
        lex_le(a, b) || lex_le(b, a),
    decreases a.len(),
{
    if a.len() > 0 && b.len() > 0 {
        if a[0] == b[0] {
            lemma_lex_total(a.drop_first(), b.drop_first());
        } else {
            assert((a[0] as int) != (b[0] as int));
        }
    }
}

pub proof fn lemma_lex_refl(a: Seq<char>)
    ensures
        lex_le(a, a),
    decreases a.len(),
{
    if a.len() > 0 {
        lemma_lex_refl(a.drop_first());
    }
}

pub proof fn lemma_lex_antisym(a: Seq<char>, b: Seq<char>)
    requires
        lex_le(a, b),
        lex_le(b, a),
    ensures
        a == b,
    decreases a.len(),
{
    if a.len() == 0 {
        assert(b.len() == 0);
        assert(a =~= b);
    } else {
        assert(b.len() > 0);
        assert(a[0] == b[0]);
        lemma_lex_antisym(a.drop_first(), b.drop_first());
        assert(a =~= seq![a[0]] + a.drop_first());
        assert(b =~= seq![b[0]] + b.drop_first());
    }
}

pub proof fn lemma_lex_trans(a: Seq<char>, b: Seq<char>, c: Seq<char>)
    requires
        lex_le(a, b),
        lex_le(b, c),
    ensures
        lex_le(a, c),
    decreases a.len(),
{
    if a.len() > 0 && b.len() > 0 && c.len() > 0 && a[0] == b[0] && b[0] == c[0] {
        lemma_lex_trans(a.drop_first(), b.drop_first(), c.drop_first());
    }
}

/// Whether `a` comes before `b` or equals it.
pub fn lex_le_exec(a: &Vec<char>, b: &Vec<char>) -> (res: bool)
    ensures
        res == lex_le(a@, b@),
{
    let mut i: usize = 0;
    assert(a@.skip(0) =~= a@);
    assert(b@.skip(0) =~= b@);
    while i < a.len() && i < b.len() && a[i] == b[i]
        invariant
            i <= a.len(),
            i <= b.len(),
            lex_le(a@, b@) == lex_le(a@.skip(i as int), b@.skip(i as int)),
        decreases a.len() - i,
    {
        assert(a@.skip(i as int).drop_first() =~= a@.skip(i + 1));
        assert(b@.skip(i as int).drop_first() =~= b@.skip(i + 1));
        i += 1;
    }
    if i == a.len() {
        true
    } else if i == b.len() {
        false
    } else {
        a[i] < b[i]
    }
}

proof fn lemma_sorted_unique(a: Seq<Seq<char>>, b: Seq<Seq<char>>)
    requires
        is_sorted(a),
        is_sorted(b),
        a.to_multiset() == b.to_multiset(),
    ensures
        a == b,
    decreases a.len(),
{
    a.to_multiset_ensures();
    b.to_multiset_ensures();
    if a.len() == 0 {
        assert(b.len() == 0);
        assert(a =~= b);
    } else {
        assert(b.len() == a.len());
        assert(a.to_multiset().count(a[0]) > 0);
        assert(b.contains(a[0]));
        let j = choose|j: int| 0 <= j < b.len() && b[j] == a[0];
        assert(b.to_multiset().count(b[0]) > 0);
        assert(a.contains(b[0]));
        let k = choose|k: int| 0 <= k < a.len() && a[k] == b[0];
        lemma_lex_refl(a[0]);
        if j > 0 {
            assert(lex_le(b[0], b[j]));
        }
        if k > 0 {
            assert(lex_le(a[0], a[k]));
        }
        lemma_lex_antisym(a[0], b[0]);
        let ar = a.remove(0);
        let br = b.remove(0);
        assert(ar.to_multiset() =~= br.to_multiset());
        assert(ar =~= a.drop_first());
        assert(br =~= b.drop_first());
        assert(is_sorted(ar)) by {
            assert forall|i: int, m: int| 0 <= i < m < ar.len() implies lex_le(
                #[trigger] ar[i],
                #[trigger] ar[m],
            ) by {
                assert(ar[i] == a[i + 1]);
                assert(ar[m] == a[m + 1]);
            }
        }
        assert(is_sorted(br)) by {
            assert forall|i: int, m: int| 0 <= i < m < br.len() implies lex_le(
                #[trigger] br[i],
                #[trigger] br[m],
            ) by {
                assert(br[i] == b[i + 1]);
                assert(br[m] == b[m + 1]);
            }
        }
        lemma_sorted_unique(ar, br);
        assert(a =~= seq![a[0]] + ar);
        assert(b =~= seq![b[0]] + br);
    }
}

/// A sorted sequence with the same strings as `s` is `sorted_of(s)`.
pub proof fn lemma_sorted_of(s: Seq<Seq<char>>, t: Seq<Seq<char>>)
    requires
        is_sorted(t),
        t.to_multiset() == s.to_multiset(),
    ensures
        sorted_of(s) == t,
{
    let c = sorted_of(s);
    assert(is_sorted(c) && c.to_multiset() == s.to_multiset());
    lemma_sorted_unique(c, t);
}

/// Sorts strings (given as characters) in ascending order.
pub fn sort_strings(v: Vec<Vec<char>>) -> (res: Vec<Vec<char>>)
    ensures
        res.deep_view() == sorted_of(v.deep_view()),
        is_sorted(res.deep_view()),
        res.deep_view().to_multiset() == v.deep_view().to_multiset(),
{
    let ghost vd = v.deep_view();
    let mut out: Vec<Vec<char>> = Vec::new();
    let mut rest = v;
    let mut i: usize = 0;
    let n = rest.len();
    assert(out.deep_view() =~= Seq::<Seq<char>>::empty());
    assert(vd.take(0) =~= Seq::<Seq<char>>::empty());
    while i < n
        invariant
            n == rest.len(),
            i <= n,
            rest.deep_view() == vd,
            is_sorted(out.deep_view()),
            out.deep_view().to_multiset() == vd.take(i as int).to_multiset(),
        decreases n - i,
    {
        let x = rest[i].clone();
        assert(x@ == vd[i as int]) by {
            assert(vstd::pervasive::cloned(rest@[i as int], x));
        }
        let ghost od = out.deep_view();
        let mut p: usize = 0;
        while p < out.len() && lex_le_exec(&out[p], &x)
            invariant
                p <= out.len(),
                od == out.deep_view(),
                forall|k: int| 0 <= k < p ==> lex_le(#[trigger] od[k], x@),
            decreases out.len() - p,
        {
            assert(od[p as int] == out@[p as int]@);
            p += 1;
        }
        if p < out.len() {
            assert(od[p as int] == out@[p as int]@);
            assert(!lex_le(od[p as int], x@));
            proof {
                lemma_lex_total(od[p as int], x@);
            }
            assert(lex_le(x@, od[p as int]));
        }
        let ghost ob = out@;
        out.insert(p, x);
        let ghost nd = out.deep_view();
        assert(nd =~= od.insert(p as int, x@)) by {
            assert forall|k: int| 0 <= k < nd.len() implies nd[k] == od.insert(p as int, x@)[k] by {
                if k < p {
                    assert(out@[k] == ob[k]);
                } else if k > p {
                    assert(out@[k] == ob[k - 1]);
                }
            }
        }
        assert(is_sorted(nd)) by {
            assert forall|a: int, b: int| 0 <= a < b < nd.len() implies lex_le(
                #[trigger] nd[a],
                #[trigger] nd[b],
            ) by {
                if p < od.len() {
                    lemma_lex_total(od[p as int], x@);
                }
                if b < p {
                } else if b == p {
                    assert(lex_le(od[a], x@));
                } else if a < p {
                    // od[a] <= x, and x < od[p] <= od[b - 1]
                    assert(lex_le(od[a], x@));
                    if p < b - 1 {
                        assert(lex_le(od[p as int], od[b - 1]));
                        lemma_lex_trans(x@, od[p as int], od[b - 1]);
                    }
                    lemma_lex_trans(od[a], x@, od[b - 1]);
                } else if a == p {
                    if p < b - 1 {
                        assert(lex_le(od[p as int], od[b - 1]));
                        lemma_lex_trans(x@, od[p as int], od[b - 1]);
                    }
                } else {
                    assert(lex_le(od[a - 1], od[b - 1]));
                }
            }
        }
        proof {
            nd.to_multiset_ensures();
            od.to_multiset_ensures();
            vd.take(i + 1).to_multiset_ensures();
            assert(nd.remove(p as int) =~= od);
            assert(vd.take(i + 1) =~= vd.take(i as int).push(x@));
            assert(nd.to_multiset() =~= od.to_multiset().insert(x@));
        }
        i += 1;
    }
    assert(vd.take(n as int) =~= vd);
    proof {
        lemma_sorted_of(vd, out.deep_view());
    }
    out
}

} // verus!
