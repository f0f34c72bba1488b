//! The order of addresses, and sorting by it.
//!
//! Addresses are ordered as their 32 bytes are, byte by byte from the first.
//! For sequences of one length this is the order of the numbers that the
//! bytes denote with the first byte the most significant, which is how the
//! order is stated here.
use crate::solana::Pubkey;
use vstd::prelude::*;

verus! {

/// The number that `s` denotes, most significant byte first.
pub open spec fn be_value(s: Seq<u8>) -> nat
    decreases s.len(),
{
    if s.len() == 0 {
        0
    } else {
        be_value(s.drop_last()) * 256 + s.last() as nat
    }
}

/// The place of an address in the order of addresses.
pub open spec fn rank(pk: Pubkey) -> nat {
    be_value(pk.0@)
}

/// Each address is at most the one after it.
pub open spec fn sorted(pks: Seq<Pubkey>) -> bool {
    forall|i: int, j: int| 0 <= i <= j < pks.len() ==> rank(pks[i]) <= rank(pks[j])
}

/// Of two sequences of one length that agree before `k`, the one with the
/// smaller byte at `k` denotes the smaller number.
proof fn lemma_first_difference_decides(a: Seq<u8>, b: Seq<u8>, k: int)
    requires
        a.len() == b.len(),
        0 <= k < a.len(),
        forall|j: int| 0 <= j < k ==> a[j] == b[j],
        a[k] < b[k],
    ensures
        be_value(a) < be_value(b),
    decreases a.len(),
{
    if k == a.len() - 1 {
        assert(a.drop_last() =~= b.drop_last());
    } else {
        lemma_first_difference_decides(a.drop_last(), b.drop_last(), k);
    }
}

/// Whether `a` comes strictly before `b`.
pub fn pubkey_lt(a: &Pubkey, b: &Pubkey) -> (r: bool)
    ensures
        r == (rank(*a) < rank(*b)),
{
    let mut i: usize = 0;
    while i < 32
        invariant
            i <= 32,
            forall|j: int| 0 <= j < i ==> a.0@[j] == b.0@[j],
        decreases 32 - i,
    {
        if a.0[i] < b.0[i] {
            proof {
                lemma_first_difference_decides(a.0@, b.0@, i as int);
            }
            return true;
        }
        if a.0[i] > b.0[i] {
            proof {
                lemma_first_difference_decides(b.0@, a.0@, i as int);
            }
            return false;
        }
        i = i + 1;
    }
    assert(a.0@ =~= b.0@);
    false
}

/// Sorts the addresses in place, smallest first.
pub fn sort_pubkeys(pks: &mut [Pubkey])
    ensures
        final(pks)@.len() == old(pks)@.len(),
        sorted(final(pks)@),
        final(pks)@.to_multiset() == old(pks)@.to_multiset(),
{
    let n: usize = pks.len();
    let mut i: usize = 1;
    while i < n
        invariant
            n == pks@.len(),
            1 <= i,
            sorted(pks@.subrange(0, if i <= n { i as int } else { n as int })),
            pks@.to_multiset() == old(pks)@.to_multiset(),
        decreases n - i,
    {
        let mut j: usize = i;
        proof {
            let s = pks@.subrange(0, i as int);
            assert forall|x: int, y: int| 0 <= x <= y <= i && x != j && y != j implies rank(
                pks@[x],
            ) <= rank(pks@[y]) by {
                assert(s[x] == pks@[x] && s[y] == pks@[y]);
            }
        }
        while j > 0 && pubkey_lt(&pks[j], &pks[j - 1])
            invariant
                n == pks@.len(),
                j <= i < n,
                pks@.to_multiset() == old(pks)@.to_multiset(),
                forall|x: int, y: int|
                    0 <= x <= y <= i && x != j && y != j ==> rank(pks@[x]) <= rank(pks@[y]),
                forall|y: int| j < y <= i ==> rank(pks@[j as int]) <= rank(pks@[y]),
            decreases j,
        {
            let lo: Pubkey = pks[j];
            let hi: Pubkey = pks[j - 1];
            let ghost before = pks@;
            pks[j - 1] = lo;
            pks[j] = hi;
            proof {
                broadcast use vstd::multiset::group_multiset_axioms;

                let mid = before.update(j - 1, lo);
                assert(before[j - 1] == hi && mid[j as int] == lo);
                before.to_multiset_ensures();
                assert(before.contains(hi));
                assert(pks@ == mid.update(j as int, hi));
                vstd::seq_lib::to_multiset_update(before, j - 1, lo);
                vstd::seq_lib::to_multiset_update(mid, j as int, hi);
                assert(pks@.to_multiset() =~= before.to_multiset());
            }
            j = j - 1;
        }
        i = i + 1;
        proof {
            let s = pks@.subrange(0, i as int);
            assert forall|x: int, y: int| 0 <= x <= y < s.len() implies rank(s[x]) <= rank(
                s[y],
            ) by {
                assert(s[x] == pks@[x] && s[y] == pks@[y]);
            }
        }
    }
    proof {
        if n == 0 {
        } else {
            assert(pks@.subrange(0, n as int) =~= pks@);
        }
    }
}

} // verus!
