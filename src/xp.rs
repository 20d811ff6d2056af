//! The XP curve: how much each level awards, and the running sums over it.

use vstd::prelude::*;

verus! {

/// The highest level of the pass; levels run from 0 to this value inclusive.
pub const MAX_LEVEL: usize = 50;

/// XP awarded for reaching `level`: none for levels 0 and 1, then
/// `(level + 2) * 1000`, so 4000 at level 2 rising by 1000 per level.
pub open spec fn xp_at(level: nat) -> nat {
    if level >= 2 {
        ((level + 2) * 1000) as nat
    } else {
        0
    }
}

/// XP summed over the levels strictly below `n`.
pub open spec fn xp_below(n: nat) -> nat
    decreases n,
{
    if n == 0 {
        0
    } else {
        xp_below((n - 1) as nat) + xp_at((n - 1) as nat)
    }
}

/// XP summed over the levels `0..=level`.
pub open spec fn cumulative_xp(level: nat) -> nat {
    xp_below(level + 1)
}

/// XP summed over every level of the pass.
pub open spec fn total_xp_spec() -> nat {
    cumulative_xp(MAX_LEVEL as nat)
}

/// The levels below `n` award at most 52000 XP each, the award of the last
/// level.
proof fn lemma_xp_below_bound(n: nat)
    requires
        n <= MAX_LEVEL + 1,
    ensures
        xp_below(n) <= 52000 * n,
    decreases n,
{
    if n > 0 {
        lemma_xp_below_bound((n - 1) as nat);
    }
}

/// The cumulative XP never falls from one level to the next, and stays level
/// exactly where the next level awards nothing (below level 2).
pub proof fn lemma_cumulative_monotonic(level: nat)
    ensures
        cumulative_xp(level) <= cumulative_xp(level + 1),
        cumulative_xp(level) == cumulative_xp(level + 1) <==> level + 1 < 2,
{
}

/// A player at level 0 has gathered no XP.
pub proof fn lemma_cumulative_at_zero()
    ensures
        cumulative_xp(0) == 0,
{
    assert(xp_below(1) == xp_below(0) + xp_at(0));
}

/// The cumulative XP only grows with the level, so no level exceeds the total.
pub proof fn lemma_cumulative_ordered(lo: nat, hi: nat)
    requires
        lo <= hi,
    ensures
        cumulative_xp(lo) <= cumulative_xp(hi),
    decreases hi - lo,
{
    if lo < hi {
        lemma_cumulative_ordered(lo, (hi - 1) as nat);
        lemma_cumulative_monotonic((hi - 1) as nat);
    }
}

/// The total is positive: level 2 alone awards 4000 XP.
proof fn lemma_total_positive()
    ensures
        total_xp_spec() >= 4000,
{
    lemma_cumulative_ordered(2, MAX_LEVEL as nat);
    assert(cumulative_xp(2) == xp_below(3));
    assert(xp_below(3) == xp_below(2) + xp_at(2));
}

/// The XP awarded for reaching `level`.
pub fn xp_for_level(level: usize) -> (r: u64)
    requires
        level <= MAX_LEVEL,
    ensures
        r == xp_at(level as nat),
{
    if level >= 2 {
        (level as u64 + 2) * 1000
    } else {
        0
    }
}

/// The XP summed over levels `0..=level`.
pub fn cumulative_xp_to_level(level: usize) -> (r: u64)
    requires
        level <= MAX_LEVEL,
    ensures
        r == cumulative_xp(level as nat),
{
    let mut sum: u64 = 0;
    let mut l: usize = 0;
    while l <= level
        invariant
            l <= level + 1,
            level <= MAX_LEVEL,
            sum == xp_below(l as nat),
        decreases level + 1 - l,
    {
        proof {
            lemma_xp_below_bound((l + 1) as nat);
        }
        sum = sum + xp_for_level(l);
        l = l + 1;
    }
    sum
}

/// The XP summed over every level of the pass, the cumulative XP at the last
/// level.
pub fn total_xp() -> (r: u64)
    ensures
        r == cumulative_xp(MAX_LEVEL as nat),
        r == total_xp_spec(),
{
    cumulative_xp_to_level(MAX_LEVEL)
}

/// How far `level` is through the pass, in hundredths of a percent, rounded
/// down: `cumulative_xp(level) * 10000 / total_xp_spec()`.
pub fn percent_complete_basis_points(level: usize) -> (r: u64)
    requires
        level <= MAX_LEVEL,
    ensures
        r == cumulative_xp(level as nat) * 10000 / total_xp_spec(),
        r <= 10000,
        level == MAX_LEVEL ==> r == 10000,
        level == 0 ==> r == 0,
{
    let done = cumulative_xp_to_level(level);
    let total = total_xp();
    proof {
        lemma_total_positive();
        lemma_cumulative_ordered(level as nat, MAX_LEVEL as nat);
        lemma_xp_below_bound((MAX_LEVEL + 1) as nat);
        lemma_cumulative_at_zero();
        let d = done as int;
        let t = total as int;
        assert(d * 10000 <= t * 10000) by (nonlinear_arith)
            requires
                d <= t,
        ;
        assert((d * 10000) / t <= 10000) by (nonlinear_arith)
            requires
                d <= t,
                t > 0,
        ;
        assert((t * 10000) / t == 10000) by (nonlinear_arith)
            requires
                t > 0,
        ;
    }
    done * 10000 / total
}

} // verus!
