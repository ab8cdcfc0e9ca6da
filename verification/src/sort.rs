//! Stable sorting by insertion: each element, in input order, goes before
//! the first element already placed that it strictly precedes, so elements
//! that neither precedes keep their input order.

use vstd::prelude::*;

verus! {

/// An order in which elements are sorted: `precedes` is "strictly before".
pub trait Precedes: Sized {
    /// Whether `self` sorts strictly before `other`.
    spec fn precedes(&self, other: &Self) -> bool;

    /// Whether `self` sorts strictly before `other`.
    fn precedes_exec(&self, other: &Self) -> (r: bool)
        ensures
            r == self.precedes(other),
    ;
}

/// Where `x` goes in `t`: before the first element it precedes.
pub open spec fn insert_pos<K: Precedes>(t: Seq<K>, x: K) -> int
    decreases t.len(),
{
    if t.len() == 0 {
        0
    } else if insert_pos(t.drop_last(), x) < t.len() - 1 {
        insert_pos(t.drop_last(), x)
    } else if x.precedes(&t.last()) {
        t.len() - 1
    } else {
        t.len() as int
    }
}

/// `insert_pos` is a position in `t`, before which `x` precedes nothing.
pub proof fn lemma_insert_pos<K: Precedes>(t: Seq<K>, x: K)
    ensures
        0 <= insert_pos(t, x) <= t.len(),
        forall|j: int| 0 <= j < insert_pos(t, x) ==> !x.precedes(&t[j]),
        insert_pos(t, x) < t.len() ==> x.precedes(&t[insert_pos(t, x)]),
    decreases t.len(),
{
    if t.len() > 0 {
        lemma_insert_pos(t.drop_last(), x);
        assert forall|j: int| 0 <= j < t.len() - 1 implies t.drop_last()[j] == t[j] by {}
    }
}

/// The stable insertion sort of `s`.
pub open spec fn stable_sorted<K: Precedes>(s: Seq<K>) -> Seq<K>
    decreases s.len(),
{
    if s.len() == 0 {
        seq![]
    } else {
        let t = stable_sorted(s.drop_last());
        t.insert(insert_pos(t, s.last()), s.last())
    }
}

/// Sorting keeps the length.
pub proof fn lemma_stable_sorted_len<K: Precedes>(s: Seq<K>)
    ensures
        stable_sorted(s).len() == s.len(),
    decreases s.len(),
{
    if s.len() > 0 {
        lemma_stable_sorted_len(s.drop_last());
        lemma_insert_pos(stable_sorted(s.drop_last()), s.last());
    }
}

/// Every element of a stable sort comes from the input.
pub proof fn lemma_sorted_members<K: Precedes>(s: Seq<K>)
    ensures
        forall|k: int| 0 <= k < stable_sorted(s).len() ==> s.contains(#[trigger] stable_sorted(s)[k]),
    decreases s.len(),
{
    if s.len() > 0 {
        lemma_sorted_members(s.drop_last());
        let t = stable_sorted(s.drop_last());
        lemma_insert_pos(t, s.last());
        assert forall|k: int| 0 <= k < stable_sorted(s).len() implies s.contains(
            #[trigger] stable_sorted(s)[k],
        ) by {
            let p = crate::sort::insert_pos(t, s.last());
            let x = stable_sorted(s)[k];
            if k < p {
                assert(x == t[k]);
                assert(s.drop_last().contains(x));
                let j = choose|j: int| 0 <= j < s.drop_last().len() && s.drop_last()[j] == x;
                assert(s[j] == x);
            } else if k == p {
                assert(x == s.last());
                assert(s[s.len() - 1] == x);
            } else {
                assert(x == t[k - 1]);
                assert(s.drop_last().contains(x));
                let j = choose|j: int| 0 <= j < s.drop_last().len() && s.drop_last()[j] == x;
                assert(s[j] == x);
            }
        }
    }
}

/// Sorting rearranges: mapped through any function, the sorted sequence has
/// the elements of the input, each as often.
pub proof fn lemma_stable_sorted_permutes<K: Precedes, B>(s: Seq<K>, f: spec_fn(K) -> B)
    ensures
        stable_sorted(s).map_values(f).to_multiset() == s.map_values(f).to_multiset(),
    decreases s.len(),
{
    broadcast use vstd::seq_lib::group_to_multiset_ensures;

    if s.len() > 0 {
        let t = stable_sorted(s.drop_last());
        lemma_stable_sorted_permutes(s.drop_last(), f);
        lemma_stable_sorted_len(s.drop_last());
        lemma_insert_pos(t, s.last());
        let p = insert_pos(t, s.last());
        assert(t.insert(p, s.last()).map_values(f) =~= t.map_values(f).insert(p, f(s.last())));
        assert(s.map_values(f) =~= s.drop_last().map_values(f).push(f(s.last())));
    }
}

/// Where `precedes` is asymmetric and transitive on the elements of `s`,
/// no element of the sorted sequence precedes one before it.
pub proof fn lemma_stable_sorted_sorted<K: Precedes>(s: Seq<K>)
    requires
        forall|a: K, b: K| s.contains(a) && s.contains(b) && #[trigger] a.precedes(&b) ==> !b.precedes(&a),
        forall|a: K, b: K, c: K|
            s.contains(a) && s.contains(b) && s.contains(c) && #[trigger] a.precedes(&b) && #[trigger] b.precedes(&c)
                ==> a.precedes(&c),
    ensures
        forall|i: int, j: int|
            #![trigger stable_sorted(s)[i], stable_sorted(s)[j]]
            0 <= i < j < stable_sorted(s).len() ==> !stable_sorted(s)[j].precedes(&stable_sorted(s)[i]),
    decreases s.len(),
{
    if s.len() > 0 {
        let u = s.drop_last();
        let x = s.last();
        assert forall|a: K| u.contains(a) implies s.contains(a) by {
            let k = choose|k: int| 0 <= k < u.len() && u[k] == a;
            assert(s[k] == a);
        }
        assert(s.contains(x)) by {
            assert(s[s.len() - 1] == x);
        }
        lemma_stable_sorted_sorted(u);
        let t = stable_sorted(u);
        lemma_stable_sorted_len(u);
        lemma_insert_pos(t, x);
        lemma_sorted_members(u);
        let p = insert_pos(t, x);
        let r = stable_sorted(s);
        assert(r == t.insert(p, x));
        assert forall|i: int, j: int| #![trigger r[i], r[j]] 0 <= i < j < r.len() implies !r[j].precedes(&r[i]) by {
            if j < p {
                assert(r[i] == t[i] && r[j] == t[j]);
            } else if j == p {
                assert(r[j] == x && r[i] == t[i]);
            } else if i > p {
                assert(r[i] == t[i - 1] && r[j] == t[j - 1]);
            } else if i == p {
                assert(r[i] == x && r[j] == t[j - 1]);
                assert(u.contains(t[p]));
                assert(u.contains(t[j - 1]));
                assert(x.precedes(&t[p]));
                if j - 1 > p {
                    assert(!t[j - 1].precedes(&t[p]));
                }
            } else {
                assert(r[i] == t[i] && r[j] == t[j - 1]);
            }
        }
    }
}

/// Stable sorting gives the input's elements, each as often, in an order
/// where no element precedes one before it, wherever `precedes` is
/// asymmetric and transitive on them.
pub proof fn law_stable_sort_is_sorted_permutation<K: Precedes>(s: Seq<K>)
    requires
        forall|a: K, b: K| s.contains(a) && s.contains(b) && #[trigger] a.precedes(&b) ==> !b.precedes(&a),
        forall|a: K, b: K, c: K|
            s.contains(a) && s.contains(b) && s.contains(c) && #[trigger] a.precedes(&b) && #[trigger] b.precedes(&c)
                ==> a.precedes(&c),
    ensures
        stable_sorted(s).to_multiset() == s.to_multiset(),
        forall|i: int, j: int|
            #![trigger stable_sorted(s)[i], stable_sorted(s)[j]]
            0 <= i < j < stable_sorted(s).len() ==> !stable_sorted(s)[j].precedes(&stable_sorted(s)[i]),
{
    let id = |k: K| k;
    lemma_stable_sorted_permutes(s, id);
    assert(stable_sorted(s).map_values(id) =~= stable_sorted(s));
    assert(s.map_values(id) =~= s);
    lemma_stable_sorted_sorted(s);
}

/// Sorts `v` stably by insertion.
pub fn sort_stable<K: Precedes>(v: Vec<K>) -> (r: Vec<K>)
    ensures
        r@ == stable_sorted(v@),
{
    let ghost s = v@;
    let mut rest = v;
    let mut out: Vec<K> = Vec::new();
    let ghost mut k: int = 0;
    assert(s.take(0) =~= Seq::<K>::empty());
    while rest.len() > 0
        invariant
            0 <= k <= s.len(),
            rest@ == s.skip(k),
            out@ == stable_sorted(s.take(k)),
        decreases rest@.len(),
    {
        let x = rest.remove(0);
        assert(s.take(k + 1).drop_last() == s.take(k));
        assert(s.take(k + 1).last() == x);
        let mut j: usize = 0;
        proof {
            lemma_insert_pos(out@, x);
        }
        while j < out.len() && !x.precedes_exec(&out[j])
            invariant
                j <= out@.len(),
                j <= insert_pos(out@, x),
                0 <= insert_pos(out@, x) <= out@.len(),
                forall|i: int| 0 <= i < insert_pos(out@, x) ==> !x.precedes(&out@[i]),
                insert_pos(out@, x) < out@.len() ==> x.precedes(&out@[insert_pos(out@, x)]),
            decreases out@.len() - j,
        {
            j += 1;
        }
        assert(j == insert_pos(out@, x));
        out.insert(j, x);
        proof {
            k = k + 1;
        }
        assert(rest@ =~= s.skip(k));
    }
    assert(s.take(k) == s);
    out
}

} // verus!
