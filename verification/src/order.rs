//! The lexicographic order of strings and sorting with duplicates removed.
//!
//! `String`'s `Ord` compares UTF-8 bytes lexicographically, which orders
//! strings exactly as comparing their characters (code points)
//! lexicographically does; that is the order specified here.
use vstd::prelude::*;

verus! {

/// `a < b` in the lexicographic order of characters.
pub open spec fn str_lt(a: Seq<char>, b: Seq<char>) -> bool
    decreases a.len(),
{
    if a.len() == 0 {
        b.len() > 0
    } else if b.len() == 0 {
        false
    } else if a[0] != b[0] {
        a[0] < b[0]
    } else {
        str_lt(a.drop_first(), b.drop_first())
    }
}

/// Every element is strictly smaller than the ones after it.
pub open spec fn strictly_sorted(s: Seq<Seq<char>>) -> bool {
    forall|i: int, j: int| 0 <= i < j < s.len() ==> str_lt(#[trigger] s[i], #[trigger] s[j])
}

/// The views of a sequence of strings.
pub open spec fn views(v: Seq<String>) -> Seq<Seq<char>> {
    v.map_values(|s: String| s@)
}

pub proof fn lemma_lt_irreflexive(a: Seq<char>)
    ensures
        !str_lt(a, a),
    decreases a.len(),
{
    if a.len() > 0 {
        lemma_lt_irreflexive(a.drop_first());
    }
}

pub proof fn lemma_lt_asymmetric(a: Seq<char>, b: Seq<char>)
    requires
        str_lt(a, b),
    ensures
        !str_lt(b, a),
    decreases a.len(),
{
    if a.len() > 0 && b.len() > 0 && a[0] == b[0] {
        lemma_lt_asymmetric(a.drop_first(), b.drop_first());
    }
}

pub proof fn lemma_lt_transitive(a: Seq<char>, b: Seq<char>, c: Seq<char>)
    requires
        str_lt(a, b),
        str_lt(b, c),
    ensures
        str_lt(a, c),
    decreases a.len(),
{
    if a.len() > 0 && b.len() > 0 && c.len() > 0 && a[0] == b[0] && b[0] == c[0] {
        lemma_lt_transitive(a.drop_first(), b.drop_first(), c.drop_first());
    }
}

pub proof fn lemma_lt_total(a: Seq<char>, b: Seq<char>)
    ensures
        a == b || str_lt(a, b) || str_lt(b, a),
    decreases a.len(),
{
    if a.len() > 0 && b.len() > 0 && a[0] == b[0] {
        lemma_lt_total(a.drop_first(), b.drop_first());
        if a.drop_first() == b.drop_first() {
            assert(a =~= seq![a[0]] + a.drop_first());
            assert(b =~= seq![b[0]] + b.drop_first());
        }
    } else if a.len() == 0 && b.len() == 0 {
        assert(a =~= b);
    } else if a.len() > 0 && b.len() > 0 {
    }
}

proof fn lemma_contains_same_after_push(
    r: Seq<Seq<char>>,
    pre: Seq<Seq<char>>,
    x: Seq<char>,
    p: int,
)
    requires
        0 <= p < r.len(),
        r[p] == x,
        forall|s: Seq<char>| r.contains(s) <==> pre.contains(s),
    ensures
        forall|s: Seq<char>| r.contains(s) <==> pre.push(x).contains(s),
{
    assert forall|s: Seq<char>| r.contains(s) <==> pre.push(x).contains(s) by {
        if pre.push(x).contains(s) {
            let k = choose|k: int| 0 <= k < pre.push(x).len() && #[trigger] pre.push(x)[k] == s;
            if k < pre.len() {
                assert(pre[k] == s);
                assert(pre.contains(s));
            } else {
                assert(r[p] == s);
            }
        }
        if r.contains(s) {
            assert(pre.contains(s));
            let k = choose|k: int| 0 <= k < pre.len() && #[trigger] pre[k] == s;
            assert(pre.push(x)[k] == s);
        }
    }
}

proof fn lemma_contains_after_insert(
    r: Seq<Seq<char>>,
    pre: Seq<Seq<char>>,
    x: Seq<char>,
    p: int,
)
    requires
        0 <= p <= r.len(),
        forall|s: Seq<char>| r.contains(s) <==> pre.contains(s),
    ensures
        forall|s: Seq<char>| r.insert(p, x).contains(s) <==> pre.push(x).contains(s),
{
    let t = r.insert(p, x);
    assert forall|s: Seq<char>| t.contains(s) <==> pre.push(x).contains(s) by {
        if pre.push(x).contains(s) {
            let k = choose|k: int| 0 <= k < pre.push(x).len() && #[trigger] pre.push(x)[k] == s;
            if k < pre.len() {
                assert(pre[k] == s);
                assert(pre.contains(s));
                assert(r.contains(s));
                let m = choose|m: int| 0 <= m < r.len() && #[trigger] r[m] == s;
                if m < p {
                    assert(t[m] == s);
                } else {
                    assert(t[m + 1] == s);
                }
            } else {
                assert(t[p] == s);
            }
        }
        if t.contains(s) {
            let k = choose|k: int| 0 <= k < t.len() && #[trigger] t[k] == s;
            if k == p {
                assert(pre.push(x)[pre.len() as int] == s);
            } else {
                if k < p {
                    assert(r[k] == s);
                } else {
                    assert(r[k - 1] == s);
                }
                assert(r.contains(s));
                assert(pre.contains(s));
                let m = choose|m: int| 0 <= m < pre.len() && #[trigger] pre[m] == s;
                assert(pre.push(x)[m] == s);
            }
        }
    }
}

proof fn lemma_insert_sorted(r: Seq<Seq<char>>, x: Seq<char>, p: int)
    requires
        0 <= p <= r.len(),
        strictly_sorted(r),
        forall|j: int| 0 <= j < p ==> str_lt(#[trigger] r[j], x),
        p < r.len() ==> str_lt(x, r[p]),
    ensures
        strictly_sorted(r.insert(p, x)),
{
    let t = r.insert(p, x);
    assert forall|a: int, b: int| 0 <= a < b < t.len() implies str_lt(
        #[trigger] t[a],
        #[trigger] t[b],
    ) by {
        if b < p {
            assert(t[a] == r[a] && t[b] == r[b]);
        } else if b == p {
            assert(t[a] == r[a]);
        } else if a < p {
            assert(t[a] == r[a] && t[b] == r[b - 1]);
            if p < b - 1 {
                lemma_lt_transitive(x, r[p], r[b - 1]);
            }
            lemma_lt_transitive(r[a], x, r[b - 1]);
        } else if a == p {
            assert(t[b] == r[b - 1]);
            if p < b - 1 {
                lemma_lt_transitive(x, r[p], r[b - 1]);
            }
        } else {
            assert(t[a] == r[a - 1] && t[b] == r[b - 1]);
        }
    }
}

/// Whether `a < b` in the lexicographic order.
pub fn chars_lt(a: &Vec<char>, b: &Vec<char>) -> (r: bool)
    ensures
        r == str_lt(a@, b@),
{
    let mut i: usize = 0;
    assert(a@.subrange(0, a@.len() as int) =~= a@);
    assert(b@.subrange(0, b@.len() as int) =~= b@);
    while i < a.len() && i < b.len() && a[i] == b[i]
        invariant
            i <= a.len(),
            i <= b.len(),
            str_lt(a@, b@) == str_lt(
                a@.subrange(i as int, a@.len() as int),
                b@.subrange(i as int, b@.len() as int),
            ),
        decreases a.len() - i,
    {
        let ghost sa = a@.subrange(i as int, a@.len() as int);
        let ghost sb = b@.subrange(i as int, b@.len() as int);
        assert(sa.drop_first() =~= a@.subrange(i + 1, a@.len() as int));
        assert(sb.drop_first() =~= b@.subrange(i + 1, b@.len() as int));
        i = i + 1;
    }
    if i == a.len() {
        i < b.len()
    } else if i == b.len() {
        false
    } else {
        a[i] < b[i]
    }
}

/// The distinct elements of `v`, in strictly increasing order
/// (`sort` followed by `dedup`).
pub fn sorted_unique(v: &Vec<String>) -> (r: Vec<String>)
    ensures
        strictly_sorted(views(r@)),
        forall|s: Seq<char>| views(r@).contains(s) <==> views(v@).contains(s),
{
    let mut r: Vec<String> = Vec::new();
    let mut i: usize = 0;
    while i < v.len()
        invariant
            i <= v.len(),
            strictly_sorted(views(r@)),
            forall|s: Seq<char>|
                views(r@).contains(s) <==> views(v@.subrange(0, i as int)).contains(s),
        decreases v.len() - i,
    {
        let x = v[i].clone();
        let xc = crate::text::chars_of(x.as_str());
        // Find the first position whose element is not smaller than x.
        let mut p: usize = 0;
        let mut found_equal = false;
        while p < r.len()
            invariant_except_break
                !found_equal,
            invariant
                p <= r.len(),
                xc@ == x@,
                forall|j: int| 0 <= j < p ==> str_lt(#[trigger] r@[j]@, x@),
            ensures
                p <= r.len(),
                forall|j: int| 0 <= j < p ==> str_lt(#[trigger] r@[j]@, x@),
                p < r.len() ==> !str_lt(r@[p as int]@, x@),
                found_equal ==> p < r.len() && r@[p as int]@ == x@,
                !found_equal && p < r.len() ==> r@[p as int]@ != x@,
            decreases r.len() - p,
        {
            let rc = crate::text::chars_of(r[p].as_str());
            if crate::text::chars_eq(&rc, &xc) {
                found_equal = true;
                proof {
                    lemma_lt_irreflexive(x@);
                }
                break;
            }
            if !chars_lt(&rc, &xc) {
                break;
            }
            p = p + 1;
        }
        let ghost old_r = r@;
        let ghost pre = views(v@.subrange(0, i as int));
        assert(views(v@.subrange(0, i + 1)) =~= pre.push(x@));
        if found_equal {
            proof {
                lemma_contains_same_after_push(views(old_r), pre, x@, p as int);
            }
        } else {
            proof {
                if p < r.len() {
                    lemma_lt_total(r@[p as int]@, x@);
                }
            }
            r.insert(p, x);
            assert(views(r@) =~= views(old_r).insert(p as int, x@));
            proof {
                lemma_insert_sorted(views(old_r), x@, p as int);
                lemma_contains_after_insert(views(old_r), pre, x@, p as int);
            }
        }
        i = i + 1;
    }
    assert(v@.subrange(0, v.len() as int) =~= v@);
    r
}

} // verus!
