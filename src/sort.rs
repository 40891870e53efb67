//! A stable insertion sort over any comparator that is a total preorder, and
//! the reversal that applies a descending direction.

use crate::types::SortOrder;
use vstd::prelude::*;

verus! {

/// A total preorder on `T`, decidable at run time.
pub trait Comparator<T> {
    /// Whether `a` may stand before `b`.
    spec fn le(&self, a: T, b: T) -> bool;

    proof fn lemma_total(&self, a: T, b: T)
        ensures
            self.le(a, b) || self.le(b, a),
    ;

    proof fn lemma_trans(&self, a: T, b: T, c: T)
        requires
            self.le(a, b),
            self.le(b, c),
        ensures
            self.le(a, c),
    ;

    fn less_or_equal(&self, a: &T, b: &T) -> (r: bool)
        ensures
            r == self.le(*a, *b),
    ;
}

/// `x` put into `s` after every element that may stand before it, counted from the end.
pub open spec fn insert_sorted<T, C: Comparator<T>>(c: C, x: T, s: Seq<T>) -> Seq<T>
    decreases s.len(),
{
    if s.len() == 0 {
        seq![x]
    } else if c.le(s.last(), x) {
        s.push(x)
    } else {
        insert_sorted(c, x, s.drop_last()).push(s.last())
    }
}

/// The stable sort of `s`: its elements inserted one after another, first to last.
pub open spec fn sort_spec<T, C: Comparator<T>>(c: C, s: Seq<T>) -> Seq<T>
    decreases s.len(),
{
    if s.len() == 0 {
        s
    } else {
        insert_sorted(c, s.last(), sort_spec(c, s.drop_last()))
    }
}

/// Every element may stand before every later one.
pub open spec fn sorted_by<T, C: Comparator<T>>(c: C, s: Seq<T>) -> bool {
    forall|i: int, j: int| 0 <= i < j < s.len() ==> c.le(#[trigger] s[i], #[trigger] s[j])
}

/// `s` in the given direction: as it is, or reversed.
pub open spec fn directed<T>(s: Seq<T>, order: SortOrder) -> Seq<T> {
    match order {
        SortOrder::Ascending => s,
        SortOrder::Descending => s.reverse(),
    }
}

proof fn lemma_insert_at<T, C: Comparator<T>>(c: C, x: T, s: Seq<T>, j: int)
    requires
        0 <= j <= s.len(),
        j == 0 || c.le(s[j - 1], x),
        forall|k: int| j <= k < s.len() ==> !c.le(#[trigger] s[k], x),
    ensures
        insert_sorted(c, x, s) == s.insert(j, x),
    decreases s.len(),
{
    if s.len() == 0 {
        assert(s.insert(j, x) =~= seq![x]);
    } else if j == s.len() {
        assert(s.insert(j, x) =~= s.push(x));
    } else {
        assert(!c.le(s[s.len() - 1], x));
        lemma_insert_at(c, x, s.drop_last(), j);
        assert(s.drop_last().insert(j, x).push(s.last()) =~= s.insert(j, x));
    }
}

proof fn lemma_insert_facts<T, C: Comparator<T>>(c: C, x: T, s: Seq<T>)
    ensures
        insert_sorted(c, x, s).len() == s.len() + 1,
        insert_sorted(c, x, s).to_multiset() == s.to_multiset().insert(x),
    decreases s.len(),
{
    broadcast use vstd::seq_lib::group_to_multiset_ensures;

    if s.len() > 0 && !c.le(s.last(), x) {
        lemma_insert_facts(c, x, s.drop_last());
        assert(s.drop_last().push(s.last()) =~= s);
    }
}

proof fn lemma_insert_bounded<T, C: Comparator<T>>(c: C, x: T, s: Seq<T>, y: T)
    requires
        c.le(x, y),
        forall|i: int| 0 <= i < s.len() ==> c.le(#[trigger] s[i], y),
    ensures
        forall|i: int|
            0 <= i < insert_sorted(c, x, s).len() ==> c.le(#[trigger] insert_sorted(c, x, s)[i], y),
    decreases s.len(),
{
    lemma_insert_facts(c, x, s);
    let r = insert_sorted(c, x, s);
    if s.len() == 0 {
        assert(r[0] == x);
    } else if c.le(s.last(), x) {
        assert forall|i: int| 0 <= i < r.len() implies c.le(#[trigger] r[i], y) by {
            if i < s.len() {
                assert(r[i] == s[i]);
            }
        }
    } else {
        let t = s.drop_last();
        assert forall|i: int| 0 <= i < t.len() implies c.le(#[trigger] t[i], y) by {
            assert(t[i] == s[i]);
        }
        lemma_insert_bounded(c, x, t, y);
        lemma_insert_facts(c, x, t);
        let u = insert_sorted(c, x, t);
        assert forall|i: int| 0 <= i < r.len() implies c.le(#[trigger] r[i], y) by {
            if i < u.len() {
                assert(r[i] == u[i]);
            } else {
                assert(r[i] == s[s.len() - 1]);
            }
        }
    }
}

proof fn lemma_insert_sorted<T, C: Comparator<T>>(c: C, x: T, s: Seq<T>)
    requires
        sorted_by(c, s),
    ensures
        sorted_by(c, insert_sorted(c, x, s)),
    decreases s.len(),
{
    lemma_insert_facts(c, x, s);
    if s.len() == 0 {
    } else if c.le(s.last(), x) {
        let r = s.push(x);
        assert forall|i: int, j: int| 0 <= i < j < r.len() implies c.le(#[trigger] r[i], #[trigger] r[j]) by {
            if j == s.len() && i < s.len() - 1 {
                c.lemma_trans(s[i], s.last(), x);
            }
        }
    } else {
        let t = s.drop_last();
        c.lemma_total(s.last(), x);
        lemma_insert_sorted(c, x, t);
        lemma_insert_facts(c, x, t);
        assert forall|i: int| 0 <= i < t.len() implies c.le(#[trigger] t[i], s.last()) by {
            assert(s[i] == t[i]);
        }
        lemma_insert_bounded(c, x, t, s.last());
        let u = insert_sorted(c, x, t);
        let r = u.push(s.last());
        assert forall|i: int, j: int| 0 <= i < j < r.len() implies c.le(#[trigger] r[i], #[trigger] r[j]) by {
            if j < u.len() {
                assert(r[i] == u[i] && r[j] == u[j]);
            } else {
                assert(r[i] == u[i]);
            }
        }
    }
}

/// The stable sort is sorted and holds the same elements.
pub proof fn lemma_sort_spec<T, C: Comparator<T>>(c: C, s: Seq<T>)
    ensures
        sorted_by(c, sort_spec(c, s)),
        sort_spec(c, s).to_multiset() == s.to_multiset(),
        sort_spec(c, s).len() == s.len(),
    decreases s.len(),
{
    broadcast use vstd::seq_lib::group_to_multiset_ensures;

    if s.len() > 0 {
        lemma_sort_spec(c, s.drop_last());
        lemma_insert_sorted(c, s.last(), sort_spec(c, s.drop_last()));
        lemma_insert_facts(c, s.last(), sort_spec(c, s.drop_last()));
        assert(s.drop_last().push(s.last()) =~= s);
    }
}

fn insert_into<T, C: Comparator<T>>(c: &C, out: &mut Vec<T>, x: T)
    ensures
        final(out)@ == insert_sorted(*c, x, old(out)@),
{
    let mut j: usize = out.len();
    loop
        invariant
            j <= out.len(),
            out@ == old(out)@,
            forall|k: int| j <= k < out.len() ==> !c.le(#[trigger] out@[k], x),
        ensures
            j <= out.len(),
            out@ == old(out)@,
            j == 0 || c.le(out@[j - 1], x),
            forall|k: int| j <= k < out.len() ==> !c.le(#[trigger] out@[k], x),
        decreases j,
    {
        if j == 0 {
            break;
        }
        if c.less_or_equal(&out[j - 1], &x) {
            break;
        }
        j = j - 1;
    }
    proof {
        lemma_insert_at(*c, x, out@, j as int);
    }
    out.insert(j, x);
}

/// Sorts `v` stably by `c`: elements that compare equal keep their order.
pub fn sort_stable<T, C: Comparator<T>>(c: &C, v: Vec<T>) -> (r: Vec<T>)
    ensures
        r@ == sort_spec(*c, v@),
{
    let ghost orig = v@;
    let mut rest = v;
    let mut out: Vec<T> = Vec::new();
    let ghost mut k: int = 0;
    proof {
        assert(orig.take(0) =~= Seq::<T>::empty());
        assert(orig.skip(0) =~= orig);
    }
    while rest.len() > 0
        invariant
            0 <= k <= orig.len(),
            rest@ == orig.skip(k),
            out@ == sort_spec(*c, orig.take(k)),
        decreases rest.len(),
    {
        let x = rest.remove(0);
        insert_into(c, &mut out, x);
        proof {
            assert(orig.take(k + 1).drop_last() =~= orig.take(k));
            assert(rest@ =~= orig.skip(k + 1));
            k = k + 1;
        }
    }
    proof {
        assert(orig.take(k) =~= orig);
    }
    out
}

/// `v` in the given direction: unchanged, or reversed.
pub fn apply_direction<T>(v: Vec<T>, order: SortOrder) -> (r: Vec<T>)
    ensures
        r@ == directed(v@, order),
{
    match order {
        SortOrder::Ascending => v,
        SortOrder::Descending => {
            let ghost orig = v@;
            let mut rest = v;
            let mut out: Vec<T> = Vec::new();
            while rest.len() > 0
                invariant
                    rest.len() + out.len() == orig.len(),
                    rest@ == orig.take(rest.len() as int),
                    forall|i: int| 0 <= i < out.len() ==> out@[i] == orig[orig.len() - 1 - i],
                decreases rest.len(),
            {
                let x = rest.pop().unwrap();
                out.push(x);
                proof {
                    assert(rest@ =~= orig.take(rest.len() as int));
                }
            }
            proof {
                assert(out@ =~= orig.reverse());
            }
            out
        },
    }
}

} // verus!
