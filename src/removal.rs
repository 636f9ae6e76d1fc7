//! Removing many slots of a vector at once with `swap_remove`.
use vstd::prelude::*;
use vstd::seq_lib::to_multiset_build;
use vstd::seq_lib::to_multiset_update;

verus! {

/// The elements of `s` whose index is not in `rm`, in their order.
pub open spec fn without<T>(s: Seq<T>, rm: Set<int>) -> Seq<T>
    decreases s.len(),
{
    if s.len() == 0 {
        s
    } else {
        let rest = without(s.drop_last(), rm);
        if rm.contains(s.len() - 1) {
            rest
        } else {
            rest.push(s.last())
        }
    }
}

/// The indices held in the first `j` entries of `idx`.
pub open spec fn listed<T>(idx: Seq<usize>, j: int) -> Set<int> {
    Set::new(|i: int| exists|k: int| 0 <= k < j && idx[k] as int == i)
}

/// Indices in strictly descending order, each a slot of a vector of length `n`.
pub open spec fn descending_slots(idx: Seq<usize>, n: nat) -> bool {
    &&& forall|a: int, b: int| 0 <= a < b < idx.len() ==> idx[a] > idx[b]
    &&& forall|a: int| 0 <= a < idx.len() ==> idx[a] < n
}

/// Only the indices below the length of `s` matter to `without`.
pub(crate) proof fn lemma_without_prefix<T>(s: Seq<T>, rm1: Set<int>, rm2: Set<int>)
    requires
        forall|i: int| 0 <= i < s.len() ==> (rm1.contains(i) <==> rm2.contains(i)),
    ensures
        without(s, rm1) == without(s, rm2),
    decreases s.len(),
{
    if s.len() > 0 {
        lemma_without_prefix(s.drop_last(), rm1, rm2);
    }
}

/// Removing one more index `d` takes exactly the element `s[d]` out.
proof fn lemma_without_one_more<T>(s: Seq<T>, rm: Set<int>, d: int)
    requires
        0 <= d < s.len(),
        !rm.contains(d),
    ensures
        without(s, rm.insert(d)).to_multiset().insert(s[d]) == without(s, rm).to_multiset(),
    decreases s.len(),
{
    let n = s.len() as int;
    let t = s.drop_last();
    let rd = rm.insert(d);
    if d == n - 1 {
        lemma_without_prefix(t, rd, rm);
        to_multiset_build(without(t, rm), s.last());
    } else {
        lemma_without_one_more(t, rm, d);
        assert(t[d] == s[d]);
        if !rm.contains(n - 1) {
            to_multiset_build(without(t, rd), s.last());
            to_multiset_build(without(t, rm), s.last());
            assert(without(t, rd).to_multiset().insert(s.last()).insert(s[d]) =~= without(
                t,
                rd,
            ).to_multiset().insert(s[d]).insert(s.last()));
        }
    }
}

/// Dropping the last element of a sequence takes that element out of its multiset.
proof fn lemma_drop_last_multiset<T>(u: Seq<T>)
    requires
        u.len() > 0,
    ensures
        u.drop_last().to_multiset() == u.to_multiset().remove(u.last()),
{
    to_multiset_build(u.drop_last(), u.last());
    assert(u.drop_last().push(u.last()) =~= u);
    assert(u.drop_last().to_multiset() =~= u.drop_last().to_multiset().insert(u.last()).remove(
        u.last(),
    ));
}

/// Removes the slots listed in `idx`, which must be strictly descending, each by a
/// `swap_remove`. What is left is exactly the elements at the other slots, in some order.
pub fn swap_remove_descending<T>(v: &mut Vec<T>, idx: &Vec<usize>)
    requires
        descending_slots(idx@, old(v)@.len()),
    ensures
        final(v)@.len() == old(v)@.len() - idx@.len(),
        final(v)@.to_multiset() == without(old(v)@, listed::<T>(idx@, idx@.len() as int)).to_multiset(),
{
    let ghost s = v@;
    let ghost n = s.len() as int;
    let mut j: usize = 0;
    proof {
        lemma_without_prefix(s, listed::<T>(idx@, 0), Set::empty());
        assert(without(s, Set::<int>::empty()) == s) by {
            lemma_without_none(s);
        }
    }
    while j < idx.len()
        invariant
            n == s.len(),
            descending_slots(idx@, n as nat),
            j <= idx@.len(),
            v@.len() == n - j,
            j > 0 ==> idx@[j - 1] + j <= n,
            forall|p: int|
                0 <= p < (if j == 0 { n } else { idx@[j - 1] as int }) ==> v@[p] == s[p],
            v@.to_multiset() == without(s, listed::<T>(idx@, j as int)).to_multiset(),
        decreases idx@.len() - j,
    {
        let d = idx[j];
        let ghost before = v@;
        proof {
            assert(d == idx@[j as int] && d < n);
            if j > 0 {
                assert(idx@[j - 1] > idx@[j as int]);
            }
        }
        let last_pos = v.len() - 1;
        let ghost last = v@[last_pos as int];
        v.swap_remove(d);
        proof {
            let u = before.update(d as int, last);
            to_multiset_update(before, d as int, last);
            lemma_drop_last_multiset(u);
            assert(u.last() == last);
            assert(v@ == u.drop_last());
            assert(v@.to_multiset() =~= before.to_multiset().remove(before[d as int]));
            assert(before[d as int] == s[d as int]);
            let prev = listed::<T>(idx@, j as int);
            assert(!prev.contains(d as int)) by {
                if prev.contains(d as int) {
                    let k = choose|k: int| 0 <= k < j && idx@[k] as int == d as int;
                    assert(idx@[k] > idx@[j as int]);
                }
            }
            assert(listed::<T>(idx@, j + 1) =~= prev.insert(d as int));
            lemma_without_one_more(s, prev, d as int);
            assert(v@.to_multiset() =~= without(s, listed::<T>(idx@, j + 1)).to_multiset());
        }
        j = j + 1;
    }
}

/// Removing no index leaves a sequence as it is.
proof fn lemma_without_none<T>(s: Seq<T>)
    ensures
        without(s, Set::empty()) == s,
    decreases s.len(),
{
    if s.len() > 0 {
        lemma_without_none(s.drop_last());
        assert(s.drop_last().push(s.last()) =~= s);
    }
}

} // verus!
