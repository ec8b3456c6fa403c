//! Ranking positions by a ratio, highest first, as a stable sort does: the
//! ratio `nums[i] / dens[i]` of each position is compared by
//! cross-multiplication, and positions with equal ratios keep their order.

use vstd::prelude::*;

verus! {

/// `n1 / d1` is greater than `n2 / d2` (for positive denominators).
pub open spec fn ratio_gt(n1: int, d1: int, n2: int, d2: int) -> bool {
    n1 * d2 > n2 * d1
}

/// Position `a` ranks above position `b`: a greater ratio, or the same ratio
/// and an earlier position.
pub open spec fn ranks_above(nums: Seq<u64>, dens: Seq<u32>, a: usize, b: usize) -> bool {
    ratio_gt(nums[a as int] as int, dens[a as int] as int, nums[b as int] as int, dens[b as int] as int) || (
    !ratio_gt(nums[b as int] as int, dens[b as int] as int, nums[a as int] as int, dens[a as int] as int) && a < b)
}

/// `r` lists each of the positions `0..n` exactly once.
pub open spec fn is_permutation(r: Seq<usize>, n: nat) -> bool {
    &&& r.len() == n
    &&& forall|i: int, j: int| 0 <= i < j < r.len() ==> r[i] != r[j]
    &&& forall|i: int| 0 <= i < r.len() ==> r[i] < n
}

/// Every position in `r` ranks above the ones after it.
pub open spec fn ranked(nums: Seq<u64>, dens: Seq<u32>, r: Seq<usize>) -> bool {
    forall|i: int, j: int| 0 <= i < j < r.len() ==> ranks_above(nums, dens, #[trigger] r[i], #[trigger] r[j])
}

/// Where position `x` goes among the ranked positions `r`: before the first
/// one whose ratio is smaller than its own, or at the end.
pub open spec fn slot_for(nums: Seq<u64>, dens: Seq<u32>, r: Seq<usize>, x: usize) -> int
    decreases r.len(),
{
    if r.len() == 0 {
        0
    } else if ratio_gt(nums[x as int] as int, dens[x as int] as int, nums[r[0] as int] as int, dens[r[0] as int] as int) {
        0
    } else {
        1 + slot_for(nums, dens, r.drop_first(), x)
    }
}

/// The first `n` positions ranked by inserting each, in turn, at its slot:
/// the order a stable sort by descending ratio gives.
pub open spec fn rank_prefix(nums: Seq<u64>, dens: Seq<u32>, n: nat) -> Seq<usize>
    decreases n,
{
    if n == 0 {
        Seq::empty()
    } else {
        let r = rank_prefix(nums, dens, (n - 1) as nat);
        r.insert(slot_for(nums, dens, r, (n - 1) as usize), (n - 1) as usize)
    }
}

/// All positions ranked by descending ratio, equal ratios in order.
pub open spec fn rank_order(nums: Seq<u64>, dens: Seq<u32>) -> Seq<usize> {
    rank_prefix(nums, dens, nums.len())
}

proof fn lemma_slot_for(nums: Seq<u64>, dens: Seq<u32>, r: Seq<usize>, x: usize, p: int)
    requires
        0 <= p <= r.len(),
        forall|q: int| 0 <= q < p ==> !ratio_gt(nums[x as int] as int, dens[x as int] as int,
            nums[r[q] as int] as int, dens[r[q] as int] as int),
        p < r.len() ==> ratio_gt(nums[x as int] as int, dens[x as int] as int, nums[r[p] as int] as int,
            dens[r[p] as int] as int),
    ensures
        slot_for(nums, dens, r, x) == p,
    decreases r.len(),
{
    if r.len() > 0 && p > 0 {
        assert forall|q: int| 0 <= q < p - 1 implies !ratio_gt(nums[x as int] as int, dens[x as int] as int,
            nums[r.drop_first()[q] as int] as int, dens[r.drop_first()[q] as int] as int) by {
            assert(r.drop_first()[q] == r[q + 1]);
        }
        if p - 1 < r.drop_first().len() {
            assert(r.drop_first()[p - 1] == r[p]);
        }
        lemma_slot_for(nums, dens, r.drop_first(), x, p - 1);
    }
}

/// Not greater and greater: `n3/d3 <= n2/d2 < n1/d1` gives `n3/d3 < n1/d1`.
proof fn lemma_ratio_below(n1: int, d1: int, n2: int, d2: int, n3: int, d3: int)
    requires
        d1 > 0,
        d2 > 0,
        d3 > 0,
        n1 >= 0,
        n2 >= 0,
        n3 >= 0,
        ratio_gt(n1, d1, n2, d2),
        !ratio_gt(n3, d3, n2, d2),
    ensures
        ratio_gt(n1, d1, n3, d3),
{
    assert(n1 * d2 * d3 > n2 * d1 * d3) by (nonlinear_arith)
        requires
            n1 * d2 > n2 * d1,
            d3 > 0,
    ;
    assert(n3 * d2 * d1 <= n2 * d3 * d1) by (nonlinear_arith)
        requires
            n3 * d2 <= n2 * d3,
            d1 > 0,
    ;
    assert(n1 * d3 > n3 * d1) by (nonlinear_arith)
        requires
            n1 * d2 * d3 > n2 * d1 * d3,
            n3 * d2 * d1 <= n2 * d3 * d1,
            d2 > 0,
    ;
}

fn gt(nums: &Vec<u64>, dens: &Vec<u32>, a: usize, b: usize) -> (r: bool)
    requires
        a < nums.len() == dens.len(),
        b < nums.len(),
    ensures
        r == ratio_gt(nums@[a as int] as int, dens@[a as int] as int, nums@[b as int] as int, dens@[b as int] as int),
{
    let na = nums[a];
    let nb = nums[b];
    let da = dens[a];
    let db = dens[b];
    proof {
        assert((na as int) * (db as int) <= 0xffff_ffff_ffff_ffff * 0xffff_ffff) by (nonlinear_arith)
            requires
                0 <= na <= 0xffff_ffff_ffff_ffffu64,
                0 <= db <= 0xffff_ffffu32,
        ;
        assert((nb as int) * (da as int) <= 0xffff_ffff_ffff_ffff * 0xffff_ffff) by (nonlinear_arith)
            requires
                0 <= nb <= 0xffff_ffff_ffff_ffffu64,
                0 <= da <= 0xffff_ffffu32,
        ;
    }
    let x: u128 = (na as u128) * (db as u128);
    let y: u128 = (nb as u128) * (da as u128);
    x > y
}

/// The positions `0..nums.len()` ranked by ratio, highest first; equal
/// ratios keep their order.
pub fn rank_desc(nums: &Vec<u64>, dens: &Vec<u32>) -> (r: Vec<usize>)
    requires
        nums.len() == dens.len(),
        forall|i: int| 0 <= i < dens.len() ==> #[trigger] dens@[i] > 0,
    ensures
        r@ == rank_order(nums@, dens@),
        is_permutation(r@, nums.len() as nat),
        ranked(nums@, dens@, r@),
{
    let mut r: Vec<usize> = Vec::new();
    let mut i: usize = 0;
    while i < nums.len()
        invariant
            i <= nums.len() == dens.len(),
            forall|k: int| 0 <= k < dens.len() ==> #[trigger] dens@[k] > 0,
            is_permutation(r@, i as nat),
            ranked(nums@, dens@, r@),
            r@ == rank_prefix(nums@, dens@, i as nat),
        decreases nums.len() - i,
    {
        let mut p: usize = 0;
        while p < r.len() && !gt(nums, dens, i, r[p])
            invariant
                i < nums.len() == dens.len(),
                is_permutation(r@, i as nat),
                p <= r.len(),
                forall|q: int| 0 <= q < p ==> !ratio_gt(nums@[i as int] as int, dens@[i as int] as int,
                    nums@[r@[q] as int] as int, dens@[r@[q] as int] as int),
            decreases r.len() - p,
        {
            p += 1;
        }
        let ghost old_r = r@;
        proof {
            lemma_slot_for(nums@, dens@, old_r, i, p as int);
            assert(rank_prefix(nums@, dens@, (i + 1) as nat) == old_r.insert(p as int, i));
            assert forall|q: int| p <= q < old_r.len() implies ratio_gt(
                nums@[i as int] as int,
                dens@[i as int] as int,
                nums@[old_r[q] as int] as int,
                dens@[old_r[q] as int] as int,
            ) by {
                if q > p {
                    assert(ranks_above(nums@, dens@, old_r[p as int], old_r[q]));
                    lemma_ratio_below(
                        nums@[i as int] as int,
                        dens@[i as int] as int,
                        nums@[old_r[p as int] as int] as int,
                        dens@[old_r[p as int] as int] as int,
                        nums@[old_r[q] as int] as int,
                        dens@[old_r[q] as int] as int,
                    );
                }
            }
        }
        r.insert(p, i);
        proof {
            assert(r@ == old_r.insert(p as int, i));
            assert forall|a: int, b: int| 0 <= a < b < r@.len() implies ranks_above(
                nums@,
                dens@,
                #[trigger] r@[a],
                #[trigger] r@[b],
            ) by {
                if a < p && b < p {
                    assert(r@[a] == old_r[a] && r@[b] == old_r[b]);
                } else if a < p && b == p {
                    assert(r@[a] == old_r[a] && old_r[a] < i);
                } else if a < p && b > p {
                    assert(r@[a] == old_r[a] && r@[b] == old_r[b - 1]);
                } else if a == p {
                    assert(r@[b] == old_r[b - 1]);
                    assert(old_r[b - 1] < i);
                } else {
                    assert(r@[a] == old_r[a - 1] && r@[b] == old_r[b - 1]);
                }
            }
            assert forall|a: int, b: int| 0 <= a < b < r@.len() implies r@[a] != r@[b] by {
                if a < p && b < p {
                } else if a == p || b == p {
                } else if a < p {
                    assert(r@[b] == old_r[b - 1]);
                } else {
                    assert(r@[a] == old_r[a - 1] && r@[b] == old_r[b - 1]);
                }
            }
        }
        i += 1;
    }
    r
}

} // verus!
