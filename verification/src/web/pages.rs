//! What the matchup page computes from a tally.

use vstd::prelude::*;

use crate::models::vote::VoteTally;

verus! {

/// Integer division rounding toward zero, as Rust's `/` does, for a
/// positive divisor.
pub open spec fn trunc_div(a: int, d: int) -> int {
    if a >= 0 {
        a / d
    } else {
        -((-a) / d)
    }
}

/// The share of the votes of each side, in whole percent rounded toward
/// zero; with no votes both shares are zero (the total counts as one).
pub open spec fn percentages(votes_a: int, votes_b: int) -> (int, int) {
    let total = if votes_a + votes_b < 1 {
        1
    } else {
        votes_a + votes_b
    };
    (trunc_div(votes_a * 100, total), trunc_div(votes_b * 100, total))
}

/// Computes the vote bar of a matchup.
pub fn vote_percentages(tally: &VoteTally) -> (p: (i64, i64))
    requires
        i64::MIN <= tally.votes_a + tally.votes_b <= i64::MAX,
        i64::MIN <= tally.votes_a * 100 <= i64::MAX,
        i64::MIN <= tally.votes_b * 100 <= i64::MAX,
    ensures
        (p.0 as int, p.1 as int) == percentages(tally.votes_a as int, tally.votes_b as int),
{
    let sum = tally.votes_a + tally.votes_b;
    let total = if sum < 1 {
        1
    } else {
        sum
    };
    (tally.votes_a * 100 / total, tally.votes_b * 100 / total)
}

/// For real tallies the two shares add up to 99 or 100 percent, or to
/// nothing when there are no votes.
pub proof fn lemma_percentages_sum(votes_a: int, votes_b: int)
    requires
        votes_a >= 0,
        votes_b >= 0,
    ensures
        ({
            let (pa, pb) = percentages(votes_a, votes_b);
            &&& votes_a + votes_b == 0 ==> pa == 0 && pb == 0
            &&& votes_a + votes_b > 0 ==> 99 <= pa + pb <= 100
            &&& 0 <= pa <= 100
            &&& 0 <= pb <= 100
        }),
{
    let t = votes_a + votes_b;
    if t > 0 {
        let pa = (votes_a * 100) / t;
        let pb = (votes_b * 100) / t;
        assert(0 <= pa <= 100 && 0 <= pb <= 100 && 99 <= pa + pb <= 100) by (nonlinear_arith)
            requires
                votes_a >= 0,
                votes_b >= 0,
                t == votes_a + votes_b,
                t > 0,
                pa == (votes_a * 100) / t,
                pb == (votes_b * 100) / t,
        ;
    }
}

/// Each share is the side's votes as a whole percentage of all votes,
/// rounded down: `p` percent of the total is at most 100 times the side's
/// votes, and `p + 1` percent is more.
pub proof fn lemma_percentages_floor(votes_a: int, votes_b: int)
    requires
        votes_a >= 0,
        votes_b >= 0,
        votes_a + votes_b > 0,
    ensures
        ({
            let (pa, pb) = percentages(votes_a, votes_b);
            let t = votes_a + votes_b;
            &&& pa * t <= votes_a * 100 < (pa + 1) * t
            &&& pb * t <= votes_b * 100 < (pb + 1) * t
        }),
{
    let t = votes_a + votes_b;
    let pa = (votes_a * 100) / t;
    let pb = (votes_b * 100) / t;
    assert(pa * t <= votes_a * 100 < (pa + 1) * t) by (nonlinear_arith)
        requires
            t > 0,
            votes_a >= 0,
            pa == (votes_a * 100) / t,
    ;
    assert(pb * t <= votes_b * 100 < (pb + 1) * t) by (nonlinear_arith)
        requires
            t > 0,
            votes_b >= 0,
            pb == (votes_b * 100) / t,
    ;
}

} // verus!
