use vstd::prelude::*;

use crate::side::{Side, side_of};

verus! {

/// How a bar's close sits against the volatility bands of one baseline.
#[derive(Clone, Copy, Debug, PartialEq, Eq, Structural)]
pub struct BandCheck {
    /// Both bands of this baseline exist.
    pub ready: bool,
    /// The close is above the upper band.
    pub above: bool,
    /// The close is below the lower band.
    pub below: bool,
}

/// One baseline's vote after a bar: +1 above the upper band, -1 below the
/// lower band; otherwise, and while the bands are not ready, the vote stays.
pub open spec fn vote(score: i8, check: BandCheck) -> i8 {
    if check.ready && check.above {
        1i8
    } else if check.ready && check.below {
        -1i8
    } else {
        score
    }
}

/// A vote is one of -1, 0 and +1.
pub open spec fn valid_votes(scores: Seq<i8>) -> bool {
    forall|k: int| 0 <= k < scores.len() ==> -1 <= #[trigger] scores[k] <= 1
}

/// The sum of the five votes.
pub open spec fn total_of(scores: Seq<i8>) -> int {
    scores[0] + scores[1] + scores[2] + scores[3] + scores[4]
}

fn vote_of(score: i8, check: BandCheck) -> (r: i8)
    ensures
        r == vote(score, check),
{
    if check.ready && check.above {
        1
    } else if check.ready && check.below {
        -1
    } else {
        score
    }
}

/// Updates the five baseline votes for a bar, and tells whether any of the
/// five has its bands ready (the bar then produces a reading).
pub fn update_votes(scores: [i8; 5], checks: [BandCheck; 5]) -> (r: ([i8; 5], bool))
    ensures
        forall|k: int| 0 <= k < 5 ==> (#[trigger] r.0@[k]) == vote(scores@[k], checks@[k]),
        r.1 == exists|k: int| 0 <= k < 5 && (#[trigger] checks@[k]).ready,
{
    let next = [
        vote_of(scores[0], checks[0]),
        vote_of(scores[1], checks[1]),
        vote_of(scores[2], checks[2]),
        vote_of(scores[3], checks[3]),
        vote_of(scores[4], checks[4]),
    ];
    let any_ready = checks[0].ready || checks[1].ready || checks[2].ready || checks[3].ready
        || checks[4].ready;
    proof {
        assert forall|k: int| 0 <= k < 5 implies (#[trigger] next@[k]) == vote(scores@[k], checks@[k]) by {
            if k == 0 {
            } else if k == 1 {
            } else if k == 2 {
            } else if k == 3 {
            } else {
            }
        }
        if any_ready {
            if checks[0].ready {
                assert(checks@[0].ready);
            } else if checks[1].ready {
                assert(checks@[1].ready);
            } else if checks[2].ready {
                assert(checks@[2].ready);
            } else if checks[3].ready {
                assert(checks@[3].ready);
            } else {
                assert(checks@[4].ready);
            }
        }
    }
    (next, any_ready)
}

/// The sum of the five votes; the trend score is this sum over five.
pub fn vote_total(scores: [i8; 5]) -> (t: i32)
    ensures
        t == total_of(scores@),
{
    scores[0] as i32 + scores[1] as i32 + scores[2] as i32 + scores[3] as i32 + scores[4] as i32
}

/// The side the votes lean to: bullish on a positive sum, bearish on a
/// negative one, none on zero.
pub fn vote_side(scores: [i8; 5]) -> (r: Option<Side>)
    ensures
        r == side_of(total_of(scores@) > 0, total_of(scores@) < 0),
{
    let t = vote_total(scores);
    if t > 0 {
        Some(Side::Bullish)
    } else if t < 0 {
        Some(Side::Bearish)
    } else {
        None
    }
}

/// Votes stay among -1, 0 and +1 from bar to bar, so the trend score (their
/// sum over five) stays within -1 and +1.
pub proof fn law_votes_stay_bounded(scores: Seq<i8>, checks: Seq<BandCheck>)
    requires
        scores.len() == 5,
        checks.len() == 5,
        valid_votes(scores),
    ensures
        valid_votes(Seq::new(5, |k: int| vote(scores[k], checks[k]))),
        -5 <= total_of(scores) <= 5,
{
    assert(-1 <= scores[0] <= 1);
    assert(-1 <= scores[1] <= 1);
    assert(-1 <= scores[2] <= 1);
    assert(-1 <= scores[3] <= 1);
    assert(-1 <= scores[4] <= 1);
}

/// A baseline with ready bands votes +1 when the close is above the upper
/// band, -1 when it is below the lower band (and not above), and otherwise
/// keeps its vote; a baseline without ready bands keeps its vote.
pub proof fn law_vote_follows_bands(score: i8, check: BandCheck)
    ensures
        check.ready && check.above ==> vote(score, check) == 1,
        check.ready && !check.above && check.below ==> vote(score, check) == -1,
        !(check.ready && (check.above || check.below)) ==> vote(score, check) == score,
{
}

/// The total counts every one of the five votes: all zero votes total zero,
/// and raising any single vote by one raises the total by exactly one.
pub proof fn law_total_counts_every_vote(scores: Seq<i8>, k: int)
    requires
        scores.len() == 5,
        0 <= k < 5,
        scores[k] < 127,
    ensures
        total_of(Seq::new(5, |j: int| 0i8)) == 0,
        total_of(scores.update(k, (scores[k] + 1) as i8)) == total_of(scores) + 1,
        total_of(Seq::new(5, |j: int| if j == k { 1i8 } else { 0i8 })) == 1,
{
    let raised = scores.update(k, (scores[k] + 1) as i8);
    assert(raised[0] == if k == 0 { scores[0] + 1 } else { scores[0] as int });
    assert(raised[1] == if k == 1 { scores[1] + 1 } else { scores[1] as int });
    assert(raised[2] == if k == 2 { scores[2] + 1 } else { scores[2] as int });
    assert(raised[3] == if k == 3 { scores[3] + 1 } else { scores[3] as int });
    assert(raised[4] == if k == 4 { scores[4] + 1 } else { scores[4] as int });
}

/// The side of the votes is the sign of their total: bullish when more
/// votes are up than down, bearish when more are down, none on a tie.
pub proof fn law_vote_side_is_sign(scores: Seq<i8>)
    requires
        scores.len() == 5,
    ensures
        (side_of(total_of(scores) > 0, total_of(scores) < 0) == Some(Side::Bullish)) == (total_of(scores) > 0),
        (side_of(total_of(scores) > 0, total_of(scores) < 0) == Some(Side::Bearish)) == (total_of(scores) < 0),
        (side_of(total_of(scores) > 0, total_of(scores) < 0) is None) == (total_of(scores) == 0),
{
}

} // verus!
