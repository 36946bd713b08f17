//! Stable ordering of timed items by their sample position.

use vstd::prelude::*;

verus! {

/// Items placed at a sample position.
pub trait SampleKeyed {
    /// The item's sample position.
    spec fn spec_key(&self) -> u64;

    /// The item's sample position.
    fn key(&self) -> (k: u64)
        ensures
            k == self.spec_key(),
    ;
}

/// `s` with `x` placed after the trailing items whose position exceeds `x`'s,
/// working from the end: for a sequence in order, `x` lands after every item at
/// or before its position.
pub open spec fn insert_by_key<T: SampleKeyed>(s: Seq<T>, x: T) -> Seq<T>
    decreases s.len(),
{
    if s.len() == 0 {
        seq![x]
    } else if s.last().spec_key() <= x.spec_key() {
        s.push(x)
    } else {
        insert_by_key(s.drop_last(), x).push(s.last())
    }
}

/// The stable ordering of `s` by position: items are taken in order and each is
/// placed after every earlier item at or before its position, so items at equal
/// positions keep their relative order.
pub open spec fn sorted_by_key<T: SampleKeyed>(s: Seq<T>) -> Seq<T>
    decreases s.len(),
{
    if s.len() == 0 {
        s
    } else {
        insert_by_key(sorted_by_key(s.drop_last()), s.last())
    }
}

/// The positions of `s` never decrease.
pub open spec fn keys_ordered<T: SampleKeyed>(s: Seq<T>) -> bool {
    forall|i: int, j: int| 0 <= i <= j < s.len() ==> s[i].spec_key() <= s[j].spec_key()
}

proof fn lemma_insert_split<T: SampleKeyed>(p: Seq<T>, x: T, j: int)
    requires
        0 <= j < p.len(),
        p[j].spec_key() > x.spec_key(),
    ensures
        insert_by_key(p.take(j + 1), x) == insert_by_key(p.take(j), x).push(p[j]),
{
    assert(p.take(j + 1).drop_last() =~= p.take(j));
}

/// Inserting into an ordered sequence keeps it ordered.
pub proof fn lemma_insert_keeps_order<T: SampleKeyed>(s: Seq<T>, x: T)
    requires
        keys_ordered(s),
    ensures
        keys_ordered(insert_by_key(s, x)),
        insert_by_key(s, x).len() == s.len() + 1,
        insert_by_key(s, x).to_multiset() == s.to_multiset().insert(x),
    decreases s.len(),
{
    broadcast use vstd::multiset::group_multiset_axioms;
    broadcast use vstd::seq_lib::group_to_multiset_ensures;
    if s.len() == 0 {
        assert(seq![x] =~= Seq::<T>::empty().push(x));
    } else if s.last().spec_key() <= x.spec_key() {
    } else {
        let rest = s.drop_last();
        assert forall|i: int, j: int| 0 <= i <= j < rest.len() implies rest[i].spec_key() <= rest[j].spec_key() by {
            assert(rest[i] == s[i]);
            assert(rest[j] == s[j]);
        }
        lemma_insert_keeps_order(rest, x);
        let r = insert_by_key(rest, x);
        let out = r.push(s.last());
        assert forall|i: int, j: int| 0 <= i <= j < out.len() implies out[i].spec_key() <= out[j].spec_key() by {
            if j == out.len() - 1 && i < j {
                // every item of r is x or an item of rest, all at or before s.last()
                assert(r.to_multiset().count(r[i]) > 0);
                assert(r.contains(r[i]));
                if r[i] != x {
                    assert(rest.to_multiset().count(r[i]) > 0);
                    assert(rest.contains(r[i]));
                    let k = choose|k: int| 0 <= k < rest.len() && rest[k] == r[i];
                    assert(s[k] == rest[k]);
                }
            }
        }
        assert(s =~= rest.push(s.last()));
    }
}

/// The stable ordering is in order of position and holds the same items.
pub proof fn law_sorted_by_key<T: SampleKeyed>(s: Seq<T>)
    ensures
        keys_ordered(sorted_by_key(s)),
        sorted_by_key(s).len() == s.len(),
        sorted_by_key(s).to_multiset() == s.to_multiset(),
    decreases s.len(),
{
    broadcast use vstd::seq_lib::group_to_multiset_ensures;
    if s.len() > 0 {
        law_sorted_by_key(s.drop_last());
        lemma_insert_keeps_order(sorted_by_key(s.drop_last()), s.last());
        assert(s =~= s.drop_last().push(s.last()));
    }
}

/// Reorders `v` stably by position (insertion sort): the result is `sorted_by_key`
/// of the items `v` held.
pub fn sort_by_key<T: SampleKeyed + Copy>(v: &mut Vec<T>)
    ensures
        final(v)@ == sorted_by_key(old(v)@),
{
    let ghost orig = v@;
    let n = v.len();
    let mut i: usize = 0;
    while i < n
        invariant
            n == orig.len(),
            v@.len() == n,
            i <= n,
            v@.take(i as int) == sorted_by_key(orig.take(i as int)),
            v@.skip(i as int) == orig.skip(i as int),
        decreases n - i,
    {
        let ghost p = v@.take(i as int);
        let ghost x = orig[i as int];
        proof {
            assert(orig.take(i + 1).drop_last() =~= orig.take(i as int));
            assert(orig.take(i + 1).last() == x);
            assert(v@[i as int] == v@.skip(i as int)[0]);
            assert(v@[i as int] == x);
            assert(p.take(i as int) =~= p);
            assert(p.skip(i as int) =~= Seq::<T>::empty());
            assert(v@.take(i + 1) =~= p.take(i as int) + seq![x] + p.skip(i as int));
            assert(insert_by_key(p.take(i as int), x) + p.skip(i as int) =~= insert_by_key(p, x));
            assert forall|k: int| 0 <= k < v@.skip(i + 1).len() implies #[trigger] v@.skip(i + 1)[k] == orig.skip(i + 1)[k] by {
                assert(v@.skip(i + 1)[k] == v@.skip(i as int)[k + 1]);
                assert(orig.skip(i + 1)[k] == orig.skip(i as int)[k + 1]);
            }
            assert(v@.skip(i + 1) =~= orig.skip(i + 1));
        }
        let mut j: usize = i;
        while j > 0 && v[j - 1].key() > v[j].key()
            invariant
                n == orig.len(),
                v@.len() == n,
                i < n,
                j <= i,
                p.len() == i,
                v@.take(i + 1) == p.take(j as int) + seq![x] + p.skip(j as int),
                v@.skip(i + 1) == orig.skip(i + 1),
                insert_by_key(p, x) == insert_by_key(p.take(j as int), x) + p.skip(j as int),
            decreases j,
        {
            proof {
                assert(v@[j - 1] == p[j - 1]) by {
                    assert(v@.take(i + 1)[j - 1] == p.take(j as int)[j - 1]);
                }
                assert(v@[j as int] == x) by {
                    assert(v@.take(i + 1)[j as int] == (p.take(j as int) + seq![x] + p.skip(j as int))[j as int]);
                }
                lemma_insert_split(p, x, j - 1);
                assert(p.take(j as int) =~= p.take(j - 1).push(p[j - 1]));
                assert(p.skip(j - 1) =~= seq![p[j - 1]] + p.skip(j as int));
            }
            let ghost before = v@;
            let a = v[j - 1];
            let b = v[j];
            v.set(j - 1, b);
            v.set(j, a);
            proof {
                let want = p.take(j - 1) + seq![x] + p.skip(j - 1);
                let had = p.take(j as int) + seq![x] + p.skip(j as int);
                assert forall|k: int| 0 <= k < i + 1 implies #[trigger] v@.take(i + 1)[k] == want[k] by {
                    assert(before.take(i + 1)[k] == had[k]);
                    if k < j - 1 {
                        assert(v@[k] == before[k]);
                        assert(had[k] == p[k]);
                    } else if k == j - 1 {
                    } else if k == j {
                        assert(want[k] == p.skip(j - 1)[0]);
                    } else {
                        assert(v@[k] == before[k]);
                        assert(had[k] == p.skip(j as int)[k - j - 1]);
                        assert(want[k] == p.skip(j - 1)[k - j]);
                    }
                }
                assert(v@.take(i + 1) =~= want);
                assert(v@.skip(i + 1) =~= orig.skip(i + 1));
                assert(insert_by_key(p, x) =~= insert_by_key(p.take(j - 1), x) + p.skip(j - 1));
            }
            j -= 1;
        }
        proof {
            if j > 0 {
                assert(v@.take(i + 1)[j - 1] == p.take(j as int)[j - 1]);
                assert(v@.take(i + 1)[j as int] == (p.take(j as int) + seq![x] + p.skip(j as int))[j as int]);
                assert(p.take(j as int).drop_last() =~= p.take(j - 1));
                assert(p.take(j as int).last() == p[j - 1]);
            } else {
                assert(p.take(0) =~= Seq::<T>::empty());
            }
            assert(insert_by_key(p.take(j as int), x) =~= p.take(j as int).push(x));
            assert(v@.take(i + 1) =~= insert_by_key(p, x));
            assert(v@.skip(i + 1) == orig.skip(i + 1));
        }
        i += 1;
    }
    assert(v@.take(n as int) =~= v@);
    assert(orig.take(n as int) =~= orig);
}

} // verus!
