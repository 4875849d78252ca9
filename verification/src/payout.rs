//! The payout arithmetic: truncating division of the pool among the winners,
//! what each marking pays, and what a finalize refunds.

use vstd::arithmetic::div_mod::{
    lemma_div_basics, lemma_div_nonincreasing, lemma_div_pos_is_pos, lemma_fundamental_div_mod,
    lemma_mod_division_less_than_divisor,
};
use vstd::arithmetic::mul::{
    lemma_mul_is_commutative, lemma_mul_nonnegative, lemma_mul_unary_negation,
};
use vstd::prelude::*;

verus! {

/// Division rounding toward zero, as the host's integer division does.  The
/// built-in spec `/` is Euclidean, which differs on negative dividends.
pub open spec fn div_trunc(a: int, b: int) -> int
    recommends
        b > 0,
{
    if a >= 0 {
        a / b
    } else {
        -((-a) / b)
    }
}

/// What the k-th marking pays its winner: the pool divided by the number of
/// winners at that moment, truncated.  Earlier winners are never paid again,
/// so their (larger) shares stand.
pub open spec fn winner_share(reward: int, k: int) -> int {
    div_trunc(reward, k)
}

/// The sum of everything the first `n` markings paid out.
pub open spec fn total_winner_payout(reward: int, n: nat) -> int
    decreases n,
{
    if n == 0 {
        0
    } else {
        total_winner_payout(reward, (n - 1) as nat) + winner_share(reward, n as int)
    }
}

/// What finalizing with `n` winners refunds to the creator: the whole pool
/// when nobody won, otherwise the truncation remainder of an `n`-way split —
/// and nothing when that remainder is not positive.
pub open spec fn finalize_refund(reward: int, n: nat) -> int {
    if n == 0 {
        reward
    } else {
        let leftover = reward - div_trunc(reward, n as int) * n;
        if leftover > 0 {
            leftover
        } else {
            0
        }
    }
}

/// Truncating division never grows the magnitude: the quotient stays between
/// 0 and the dividend.
pub proof fn lemma_div_trunc_bounds(a: int, b: int)
    requires
        b >= 1,
    ensures
        a >= 0 ==> 0 <= div_trunc(a, b) <= a,
        a < 0 ==> a <= div_trunc(a, b) <= 0,
{
    if a >= 0 {
        lemma_div_pos_is_pos(a, b);
        lemma_div_nonincreasing(a, b);
    } else {
        lemma_div_pos_is_pos(-a, b);
        lemma_div_nonincreasing(-a, b);
    }
}

/// Multiplying the truncated quotient back never overshoots the dividend:
/// the product stays between 0 and the dividend.
pub proof fn lemma_div_trunc_mul_bounds(a: int, b: int)
    requires
        b >= 1,
    ensures
        a >= 0 ==> 0 <= div_trunc(a, b) * b <= a,
        a < 0 ==> a <= div_trunc(a, b) * b <= 0,
{
    if a >= 0 {
        let q = a / b;
        lemma_fundamental_div_mod(a, b);
        lemma_mod_division_less_than_divisor(a, b);
        lemma_div_pos_is_pos(a, b);
        lemma_mul_is_commutative(q, b);
        lemma_mul_nonnegative(q, b);
    } else {
        let q = (-a) / b;
        lemma_fundamental_div_mod(-a, b);
        lemma_mod_division_less_than_divisor(-a, b);
        lemma_div_pos_is_pos(-a, b);
        lemma_mul_is_commutative(q, b);
        lemma_mul_nonnegative(q, b);
        lemma_mul_unary_negation(q, b);
        assert(q * b <= -a);
        assert(div_trunc(a, b) * b == (-q) * b);
    }
}

/// One share of a whole split takes the whole: dividing by 1 changes
/// nothing.
pub proof fn lemma_whole_share(reward: int)
    ensures
        winner_share(reward, 1) == reward,
{
    if reward >= 0 {
        lemma_div_basics(reward);
    } else {
        lemma_div_basics(-reward);
    }
}

/// A non-positive pool never pays a marking anything positive, so the
/// markings' sum stays at or below the pool once anyone was marked.
proof fn lemma_nonpositive_payout_sum(reward: int, n: nat)
    requires
        reward <= 0,
        n >= 1,
    ensures
        total_winner_payout(reward, n) <= reward,
    decreases n,
{
    assert(total_winner_payout(reward, n) == total_winner_payout(reward, (n - 1) as nat)
        + winner_share(reward, n as int));
    if n == 1 {
        assert(total_winner_payout(reward, 0) == 0);
        lemma_whole_share(reward);
    } else {
        lemma_nonpositive_payout_sum(reward, (n - 1) as nat);
        lemma_div_trunc_bounds(reward, n as int);
    }
}

/// The escrow conserves the pool — everything the markings paid out plus the
/// finalize refund never exceeds the reward — whenever at most one winner is
/// marked, or the pool is not positive.  With a positive pool and two or
/// more winners it fails: each marking divides by the count at its own
/// moment, so earlier winners keep larger shares, and the refund is
/// recomputed as if every share had used the final count.
pub proof fn lemma_escrow_conservation(reward: int, n: nat)
    requires
        n <= 1 || reward <= 0,
    ensures
        total_winner_payout(reward, n) + finalize_refund(reward, n) <= reward,
{
    if n == 0 {
    } else {
        if n == 1 {
            assert(total_winner_payout(reward, 0) == 0);
            assert(total_winner_payout(reward, 1) == winner_share(reward, 1));
        } else {
            lemma_nonpositive_payout_sum(reward, n);
        }
        lemma_whole_share(reward);
        lemma_div_trunc_mul_bounds(reward, n as int);
        assert(finalize_refund(reward, n) == 0);
    }
}

} // verus!
