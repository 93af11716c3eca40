//! Sets of numbers, and their members in order.

use std::collections::BTreeSet;

use vstd::laws_cmp::*;
use vstd::laws_eq::*;
use vstd::prelude::*;
use vstd::std_specs::btree::*;
use vstd::std_specs::cmp::OrdSpec;
use vstd::std_specs::iter::IteratorSpec;

verus! {

// ---------------------------------------------------------------------------
// Numbers in order.
// ---------------------------------------------------------------------------
/// Each number is larger than the one before.
pub open spec fn increasing(ids: Seq<u32>) -> bool {
    forall|i: int, j: int| 0 <= i < j < ids.len() ==> ids[i] < ids[j]
}

/// How many of the numbers, from the first on, are below `n`.
pub open spec fn rank(ids: Seq<u32>, n: u32) -> int
    decreases ids.len(),
{
    if ids.len() == 0 || ids[0] >= n {
        0
    } else {
        1 + rank(ids.skip(1), n)
    }
}

/// The numbers with `n` put in its place, unless it is there.
pub open spec fn with_id(ids: Seq<u32>, n: u32) -> Seq<u32> {
    let at = rank(ids, n);
    if at < ids.len() && ids[at] == n {
        ids
    } else {
        ids.insert(at, n)
    }
}

/// The number is put in where there is one.
pub open spec fn with_id_opt(ids: Seq<u32>, n: Option<u32>) -> Seq<u32> {
    match n {
        Some(n) => with_id(ids, n),
        None => ids,
    }
}

pub proof fn lemma_rank(ids: Seq<u32>, n: u32)
    ensures
        0 <= rank(ids, n) <= ids.len(),
        rank(ids, n) < ids.len() ==> ids[rank(ids, n)] >= n,
        forall|i: int| 0 <= i < rank(ids, n) ==> ids[i] < n,
    decreases ids.len(),
{
    if ids.len() > 0 && ids[0] < n {
        let rest = ids.skip(1);
        lemma_rank(rest, n);
        assert forall|i: int| 0 <= i < rank(ids, n) implies ids[i] < n by {
            if i > 0 {
                assert(rest[i - 1] == ids[i]);
            }
        }
    }
}

/// Putting a number in keeps the order and adds just that number.
pub proof fn lemma_with_id(ids: Seq<u32>, n: u32)
    requires
        increasing(ids),
    ensures
        increasing(with_id(ids, n)),
        with_id(ids, n).contains(n),
        forall|x: u32| #[trigger] with_id(ids, n).contains(x) <==> ids.contains(x) || x == n,
        with_id(ids, n).to_set() == ids.to_set().insert(n),
{
    lemma_rank(ids, n);
    let at = rank(ids, n);
    let now = with_id(ids, n);
    if at < ids.len() && ids[at] == n {
        assert(ids.contains(n));
    } else {
        assert(now[at] == n);
        assert forall|i: int, j: int| 0 <= i < j < now.len() implies now[i] < now[j] by {
            if i < at && j > at {
                assert(ids[i] < n);
            }
            if i == at && j > at {
                assert(ids[at] > n);
                if j - 1 > at {
                    assert(ids[at] < ids[j - 1]);
                }
            }
        }
        assert forall|x: u32| #[trigger] now.contains(x) implies ids.contains(x) || x == n by {
            let k = choose|k: int| 0 <= k < now.len() && now[k] == x;
            if k < at {
                assert(ids[k] == x);
            } else if k > at {
                assert(ids[k - 1] == x);
            }
        }
        assert forall|x: u32| ids.contains(x) || x == n implies #[trigger] now.contains(x) by {
            if ids.contains(x) {
                let k = choose|k: int| 0 <= k < ids.len() && ids[k] == x;
                if k < at {
                    assert(now[k] == x);
                } else {
                    assert(now[k + 1] == x);
                }
            }
        }
    }
    assert(now.to_set() =~= ids.to_set().insert(n)) by {
        assert forall|x: u32| now.to_set().contains(x) == ids.to_set().insert(n).contains(x) by {
            assert(now.contains(x) <==> ids.contains(x) || x == n);
        }
    }
}

/// Two rows in order with the same numbers are the same row.
pub proof fn lemma_same_numbers(a: Seq<u32>, b: Seq<u32>)
    requires
        increasing(a),
        increasing(b),
        a.to_set() == b.to_set(),
    ensures
        a == b,
    decreases a.len(),
{
    assert forall|x: u32| a.contains(x) <==> b.contains(x) by {
        assert(a.to_set().contains(x) == a.contains(x));
        assert(b.to_set().contains(x) == b.contains(x));
    }
    if a.len() == 0 {
        if b.len() > 0 {
            assert(b.contains(b[0]));
        }
    } else {
        assert(a.contains(a.last()));
        assert(b.contains(b.last()));
        assert(a.last() == b.last());
        let a1 = a.drop_last();
        let b1 = b.drop_last();
        assert forall|x: u32| a1.to_set().contains(x) <==> b1.to_set().contains(x) by {
            if a1.contains(x) {
                let i = choose|i: int| 0 <= i < a1.len() && a1[i] == x;
                assert(a[i] == x);
                assert(b.contains(x));
                let j = choose|j: int| 0 <= j < b.len() && b[j] == x;
                assert(b1[j] == x);
            }
            if b1.contains(x) {
                let j = choose|j: int| 0 <= j < b1.len() && b1[j] == x;
                assert(b[j] == x);
                assert(a.contains(x));
                let i = choose|i: int| 0 <= i < a.len() && a[i] == x;
                assert(a1[i] == x);
            }
        }
        assert(a1.to_set() =~= b1.to_set());
        lemma_same_numbers(a1, b1);
        assert(a =~= a1.push(a.last()));
        assert(b =~= b1.push(b.last()));
    }
}

// ---------------------------------------------------------------------------
// Sets.
// ---------------------------------------------------------------------------
proof fn lemma_references_compare()
    ensures
        obeys_cmp::<u32>(),
        obeys_cmp::<&u32>(),
{
    broadcast use {group_laws_eq, group_laws_cmp};
    reveal(obeys_eq_spec_properties);
    reveal(obeys_partial_cmp_spec_properties);
    reveal(obeys_cmp_partial_ord);
    reveal(obeys_cmp_ord);
    assert(obeys_eq::<&u32>());
}

/// Puts a number into a set.
pub fn insert_id(set: &mut BTreeSet<u32>, n: u32)
    ensures
        final(set)@ == old(set)@.insert(n),
{
    proof {
        lemma_references_compare();
    }
    set.insert(n);
}

/// The members of a set in order.
pub fn in_order(set: &BTreeSet<u32>) -> (r: Vec<u32>)
    ensures
        increasing(r@),
        r@.to_set() == set@,
{
    broadcast use group_btree_axioms;
    proof {
        lemma_references_compare();
    }
    let mut r: Vec<u32> = Vec::new();
    for x in it: set.iter()
        invariant
            r@.len() == it.index(),
            it.seq() == IteratorSpec::remaining(&set.iter()),
            forall|i: int| 0 <= i < r@.len() ==> r@[i] == *it.seq()[i],
    {
        r.push(*x);
    }
    let ghost members = IteratorSpec::remaining(&set.iter());
    assert(r@ =~= members.unref());
    assert(increasing_seq(members));
    assert forall|i: int, j: int| 0 <= i < j < r@.len() implies r@[i] < r@[j] by {
        assert(OrdSpec::cmp_spec(&members[i], &members[j]) is Less);
    }
    r
}

} // verus!
