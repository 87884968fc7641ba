use vstd::prelude::*;

use crate::side::Side;

verus! {

/// The breakout in force at a bar and how many bars ago it happened.
#[derive(Clone, Copy, Debug, PartialEq, Eq, Structural)]
pub struct ActiveBreakout {
    pub side: Side,
    pub bars_since: usize,
}

/// `r` is the breakout in force at bar `i`: the latest breakout at or before
/// `i`, or `None` when there has been none.
pub open spec fn is_active_breakout(breakouts: Seq<Option<Side>>, i: int, r: Option<ActiveBreakout>) -> bool {
    match r {
        None => forall|j: int| 0 <= j <= i ==> (#[trigger] breakouts[j]) is None,
        Some(a) => {
            &&& a.bars_since <= i
            &&& breakouts[i - a.bars_since] == Some(a.side)
            &&& forall|j: int| i - a.bars_since < j <= i ==> (#[trigger] breakouts[j]) is None
        },
    }
}

/// For every bar, the breakout in force: a breakout takes over on its own
/// bar with zero bars since, and ages by one on every bar without a new one.
/// Its side also picks the stop: the box low under a bullish breakout, the
/// box high over a bearish one.
pub fn breakout_tracks(breakouts: &Vec<Option<Side>>) -> (out: Vec<Option<ActiveBreakout>>)
    ensures
        out.len() == breakouts.len(),
        forall|i: int| 0 <= i < breakouts.len() ==> is_active_breakout(breakouts@, i, #[trigger] out@[i]),
{
    let n = breakouts.len();
    let mut out: Vec<Option<ActiveBreakout>> = Vec::new();
    let mut active: Option<ActiveBreakout> = None;
    let mut i: usize = 0;
    while i < n
        invariant
            n == breakouts.len(),
            i <= n,
            out.len() == i,
            i == 0 ==> active is None,
            i > 0 ==> is_active_breakout(breakouts@, i - 1, active),
            active matches Some(a) ==> a.bars_since < i,
            forall|k: int| 0 <= k < i ==> is_active_breakout(breakouts@, k, #[trigger] out@[k]),
        decreases n - i,
    {
        active = match breakouts[i] {
            Some(side) => Some(ActiveBreakout { side, bars_since: 0 }),
            None => match active {
                Some(a) => Some(ActiveBreakout { side: a.side, bars_since: a.bars_since + 1 }),
                None => None,
            },
        };
        out.push(active);
        i += 1;
    }
    out
}

/// The breakout in force at a bar is unique.
pub proof fn lemma_active_breakout_unique(
    breakouts: Seq<Option<Side>>,
    i: int,
    r: Option<ActiveBreakout>,
    q: Option<ActiveBreakout>,
)
    requires
        0 <= i < breakouts.len(),
        is_active_breakout(breakouts, i, r),
        is_active_breakout(breakouts, i, q),
    ensures
        r == q,
{
    match (r, q) {
        (Some(a), Some(b)) => {
            if a.bars_since < b.bars_since {
                assert(breakouts[i - a.bars_since] is None);
            } else if b.bars_since < a.bars_since {
                assert(breakouts[i - b.bars_since] is None);
            }
        },
        (Some(a), None) => {
            assert(breakouts[i - a.bars_since] is None);
        },
        (None, Some(b)) => {
            assert(breakouts[i - b.bars_since] is None);
        },
        (None, None) => {},
    }
}

/// From one bar to the next, a new breakout restarts the count at zero on
/// its side, and without one the breakout in force keeps its side and ages
/// by exactly one bar.
pub proof fn law_breakout_ages_by_one(
    breakouts: Seq<Option<Side>>,
    i: int,
    r: Option<ActiveBreakout>,
    q: Option<ActiveBreakout>,
)
    requires
        0 <= i,
        i + 1 < breakouts.len(),
        breakouts.len() <= usize::MAX,
        is_active_breakout(breakouts, i, r),
        is_active_breakout(breakouts, i + 1, q),
    ensures
        breakouts[i + 1] matches Some(side) ==> q == Some(ActiveBreakout { side, bars_since: 0 }),
        breakouts[i + 1] is None ==> match r {
            Some(a) => q == Some(ActiveBreakout { side: a.side, bars_since: (a.bars_since + 1) as usize }),
            None => q is None,
        },
{
    let next: Option<ActiveBreakout> = match breakouts[i + 1] {
        Some(side) => Some(ActiveBreakout { side, bars_since: 0 }),
        None => match r {
            Some(a) => Some(ActiveBreakout { side: a.side, bars_since: (a.bars_since + 1) as usize }),
            None => None,
        },
    };
    assert(is_active_breakout(breakouts, i + 1, next));
    lemma_active_breakout_unique(breakouts, i + 1, next, q);
}

} // verus!
