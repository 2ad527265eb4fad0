//! The order of texts: lexicographic by code point, which is how `String` compares
//! (byte order of UTF-8 agrees with code point order), and sorted insertion.

use vstd::prelude::*;

use crate::text::views;

verus! {

/// `a` sorts before `b`: at the first difference `a` has the smaller code point, or `a` is a
/// proper prefix of `b`.
pub open spec fn text_less(a: Seq<char>, b: Seq<char>) -> bool
    decreases a.len(),
{
    if a.len() == 0 {
        b.len() > 0
    } else if b.len() == 0 {
        false
    } else if a[0] != b[0] {
        a[0] < b[0]
    } else {
        text_less(a.drop_first(), b.drop_first())
    }
}

/// `a` sorts before or equals `b`.
pub open spec fn text_leq(a: Seq<char>, b: Seq<char>) -> bool {
    a == b || text_less(a, b)
}

/// The texts are in strictly increasing order (sorted, no duplicates).
pub open spec fn strictly_sorted(s: Seq<Seq<char>>) -> bool {
    forall|i: int, j: int| 0 <= i < j < s.len() ==> text_less(#[trigger] s[i], #[trigger] s[j])
}

/// The texts are in non-decreasing order.
pub open spec fn sorted(s: Seq<Seq<char>>) -> bool {
    forall|i: int, j: int| 0 <= i < j < s.len() ==> text_leq(#[trigger] s[i], #[trigger] s[j])
}

pub proof fn lemma_less_irreflexive(a: Seq<char>)
    ensures
        !text_less(a, a),
    decreases a.len(),
{
    if a.len() > 0 {
        lemma_less_irreflexive(a.drop_first());
    }
}

pub proof fn lemma_less_transitive(a: Seq<char>, b: Seq<char>, c: Seq<char>)
    requires
        text_less(a, b),
        text_less(b, c),
    ensures
        text_less(a, c),
    decreases a.len(),
{
    if a.len() > 0 && b.len() > 0 && c.len() > 0 && a[0] == b[0] && b[0] == c[0] {
        lemma_less_transitive(a.drop_first(), b.drop_first(), c.drop_first());
    }
}

#[verifier::spinoff_prover]
pub proof fn lemma_less_connected(a: Seq<char>, b: Seq<char>)
    ensures
        a == b || text_less(a, b) || text_less(b, a),
    decreases a.len(),
{
    if a.len() > 0 && b.len() > 0 && a[0] == b[0] {
        lemma_less_connected(a.drop_first(), b.drop_first());
        if a.drop_first() == b.drop_first() {
            assert(a =~= seq![a[0]] + a.drop_first());
            assert(b =~= seq![b[0]] + b.drop_first());
        }
    } else if a.len() == 0 && b.len() == 0 {
        assert(a =~= b);
    } else if a.len() > 0 && b.len() > 0 {
    }
}

pub proof fn lemma_less_asymmetric(a: Seq<char>, b: Seq<char>)
    requires
        text_less(a, b),
    ensures
        !text_less(b, a),
        a != b,
{
    lemma_less_irreflexive(a);
    if text_less(b, a) {
        lemma_less_transitive(a, b, a);
    }
}

pub proof fn lemma_leq_transitive(a: Seq<char>, b: Seq<char>, c: Seq<char>)
    requires
        text_leq(a, b),
        text_leq(b, c),
    ensures
        text_leq(a, c),
{
    if a != b && b != c {
        lemma_less_transitive(a, b, c);
    }
}

proof fn lemma_sorted_first_is_least(a: Seq<Seq<char>>, i: int)
    requires
        strictly_sorted(a),
        0 < i < a.len(),
    ensures
        text_less(a[0], a[i]),
{
}

proof fn lemma_sorted_drop_first_set(a: Seq<Seq<char>>)
    requires
        strictly_sorted(a),
        a.len() > 0,
    ensures
        a.drop_first().to_set() == a.to_set().remove(a[0]),
{
    assert forall|x: Seq<char>| a.drop_first().to_set().contains(x) <==> a.to_set().remove(a[0]).contains(
        x,
    ) by {
        if a.drop_first().to_set().contains(x) {
            let k = choose|k: int| 0 <= k < a.drop_first().len() && a.drop_first()[k] == x;
            assert(a[k + 1] == x);
            lemma_less_asymmetric(a[0], a[k + 1]);
            assert(a.to_set().contains(x));
        }
        if a.to_set().remove(a[0]).contains(x) {
            let k = choose|k: int| 0 <= k < a.len() && a[k] == x;
            assert(k != 0);
            assert(a.drop_first()[k - 1] == x);
        }
    }
    assert(a.drop_first().to_set() =~= a.to_set().remove(a[0]));
}

/// A strictly sorted list is determined by the texts it holds: two strictly sorted lists
/// with the same elements are the same list.
pub proof fn lemma_strictly_sorted_by_set(a: Seq<Seq<char>>, b: Seq<Seq<char>>)
    requires
        strictly_sorted(a),
        strictly_sorted(b),
        a.to_set() == b.to_set(),
    ensures
        a == b,
    decreases a.len(),
{
    if a.len() == 0 {
        if b.len() > 0 {
            assert(b.to_set().contains(b[0]));
        }
        assert(a =~= b);
    } else if b.len() == 0 {
        assert(a.to_set().contains(a[0]));
    } else {
        assert(b.to_set().contains(a[0]));
        assert(a.to_set().contains(b[0]));
        let j = choose|j: int| 0 <= j < b.len() && b[j] == a[0];
        let i = choose|i: int| 0 <= i < a.len() && a[i] == b[0];
        if a[0] != b[0] {
            assert(j > 0 && i > 0);
            lemma_sorted_first_is_least(b, j);
            lemma_sorted_first_is_least(a, i);
            lemma_less_asymmetric(b[0], a[0]);
        }
        lemma_sorted_drop_first_set(a);
        lemma_sorted_drop_first_set(b);
        assert(strictly_sorted(a.drop_first()));
        assert(strictly_sorted(b.drop_first()));
        lemma_strictly_sorted_by_set(a.drop_first(), b.drop_first());
        assert(a =~= seq![a[0]] + a.drop_first());
        assert(b =~= seq![b[0]] + b.drop_first());
    }
}

proof fn lemma_less_skip(a: Seq<char>, b: Seq<char>, i: int)
    requires
        0 <= i < a.len(),
        i < b.len(),
        a[i] == b[i],
    ensures
        text_less(a.skip(i), b.skip(i)) == text_less(a.skip(i + 1), b.skip(i + 1)),
{
    assert(a.skip(i).drop_first() =~= a.skip(i + 1));
    assert(b.skip(i).drop_first() =~= b.skip(i + 1));
}

/// Whether `a` sorts before `b`.
pub fn less_chars(a: &[char], b: &[char]) -> (r: bool)
    ensures
        r == text_less(a@, b@),
{
    let mut i: usize = 0;
    assert(a@.skip(0) =~= a@);
    assert(b@.skip(0) =~= b@);
    while i < a.len() && i < b.len()
        invariant
            0 <= i <= a@.len(),
            i <= b@.len(),
            text_less(a@, b@) == text_less(a@.skip(i as int), b@.skip(i as int)),
        decreases a.len() - i,
    {
        if a[i] != b[i] {
            assert(a@.skip(i as int)[0] == a@[i as int]);
            assert(b@.skip(i as int)[0] == b@[i as int]);
            return a[i] < b[i];
        }
        proof {
            lemma_less_skip(a@, b@, i as int);
        }
        i = i + 1;
    }
    i == a.len() && i < b.len()
}

/// The position of the first text in the sorted `v` that `x` does not follow.
fn lower_bound(v: &Vec<Vec<char>>, x: &Vec<char>) -> (r: usize)
    requires
        sorted(views(v@)),
    ensures
        r <= v@.len(),
        forall|k: int| 0 <= k < r ==> text_less(#[trigger] v@[k]@, x@),
        r < v@.len() ==> !text_less(v@[r as int]@, x@),
{
    let mut i: usize = 0;
    while i < v.len()
        invariant
            0 <= i <= v@.len(),
            forall|k: int| 0 <= k < i ==> text_less(#[trigger] v@[k]@, x@),
        decreases v.len() - i,
    {
        if !less_chars(&v[i], x) {
            return i;
        }
        i = i + 1;
    }
    i
}

/// Inserts `x` into the strictly increasing `v` unless it is already there.
pub fn insert_unique(v: &mut Vec<Vec<char>>, x: Vec<char>)
    requires
        strictly_sorted(views(old(v)@)),
    ensures
        strictly_sorted(views(final(v)@)),
        views(final(v)@).to_set() == views(old(v)@).to_set().insert(x@),
{
    proof {
        assert forall|i: int, j: int| 0 <= i < j < views(v@).len() implies text_leq(
            #[trigger] views(v@)[i],
            #[trigger] views(v@)[j],
        ) by {}
    }
    let i = lower_bound(v, &x);
    let ghost old_views = views(v@);
    if i < v.len() && crate::text::same_chars(&v[i], &x) {
        assert(old_views[i as int] == x@);
        assert(old_views.to_set() =~= old_views.to_set().insert(x@));
        return;
    }
    proof {
        if i < v@.len() {
            lemma_less_connected(v@[i as int]@, x@);
        }
    }
    let ghost xv = x@;
    v.insert(i, x);
    let ghost new_views = views(v@);
    assert(new_views =~= old_views.insert(i as int, xv));
    assert forall|a: int, b: int| 0 <= a < b < new_views.len() implies text_less(
        #[trigger] new_views[a],
        #[trigger] new_views[b],
    ) by {
        if b < i {
        } else if a < i && b == i {
        } else if a < i && b > i {
            lemma_less_transitive(new_views[a], xv, new_views[i + 1]);
            if b > i + 1 {
                lemma_less_transitive(new_views[a], new_views[i + 1], new_views[b]);
            }
        } else if a == i {
            if b > i + 1 {
                lemma_less_transitive(xv, new_views[i + 1], new_views[b]);
            }
        } else {
        }
    }
    assert(new_views.to_set() =~= old_views.to_set().insert(xv)) by {
        assert forall|t: Seq<char>| new_views.to_set().contains(t) implies old_views.to_set().insert(
            xv,
        ).contains(t) by {
            let k = choose|k: int| 0 <= k < new_views.len() && new_views[k] == t;
            if k < i {
                assert(old_views[k] == t);
            } else if k > i {
                assert(old_views[k - 1] == t);
            }
        }
        assert forall|t: Seq<char>| old_views.to_set().insert(xv).contains(t) implies new_views.to_set().contains(
            t,
        ) by {
            if t == xv {
                assert(new_views[i as int] == t);
            } else {
                let k = choose|k: int| 0 <= k < old_views.len() && old_views[k] == t;
                if k < i {
                    assert(new_views[k] == t);
                } else {
                    assert(new_views[k + 1] == t);
                }
            }
        }
    }
}

/// Inserts `x` into the non-decreasing `v`, keeping duplicates.
pub fn insert_sorted(v: &mut Vec<Vec<char>>, x: Vec<char>)
    requires
        sorted(views(old(v)@)),
    ensures
        sorted(views(final(v)@)),
        views(final(v)@).to_multiset() == views(old(v)@).to_multiset().insert(x@),
{
    let i = lower_bound(v, &x);
    let ghost old_views = views(v@);
    let ghost xv = x@;
    proof {
        if i < v@.len() {
            lemma_less_connected(v@[i as int]@, x@);
        }
    }
    v.insert(i, x);
    let ghost new_views = views(v@);
    assert(new_views =~= old_views.insert(i as int, xv));
    assert forall|a: int, b: int| 0 <= a < b < new_views.len() implies text_leq(
        #[trigger] new_views[a],
        #[trigger] new_views[b],
    ) by {
        if b < i {
        } else if a < i && b == i {
        } else if a < i && b > i {
            lemma_leq_transitive(new_views[a], xv, new_views[i + 1]);
            if b > i + 1 {
                lemma_leq_transitive(new_views[a], new_views[i + 1], new_views[b]);
            }
        } else if a == i {
            if b > i + 1 {
                lemma_leq_transitive(xv, new_views[i + 1], new_views[b]);
            }
        } else {
        }
    }
    proof {
        vstd::seq_lib::to_multiset_insert(old_views, i as int, xv);
    }
}

} // verus!
