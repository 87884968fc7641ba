use vstd::prelude::*;

use crate::side::Side;

verus! {

/// What the renko system carries from bar to bar besides prices: the side of
/// its last signal and how many bricks in a row have formed on that side.
#[derive(Clone, Copy, Debug, PartialEq, Eq, Structural)]
pub struct RenkoState {
    pub last_signal: Option<Side>,
    pub consecutive_bricks: usize,
}

/// The state after a brick forms: a brick on the side of the last signal
/// extends the run, a brick on the other side starts a run of one, and no
/// brick changes nothing.
pub open spec fn counted(s: RenkoState, brick: Option<Side>) -> RenkoState {
    match brick {
        Some(side) => RenkoState {
            consecutive_bricks: if s.last_signal == Some(side) {
                (s.consecutive_bricks + 1) as usize
            } else {
                1
            },
            ..s
        },
        None => s,
    }
}

/// The trailing-stop tolerance for a run of bricks, in halves of a brick:
/// three bricks from 27 on, two from 10 on, one and a half from 4 on, else one.
pub open spec fn tolerance_in_halves(bricks: int) -> int {
    if bricks >= 27 {
        6
    } else if bricks >= 10 {
        4
    } else if bricks >= 4 {
        3
    } else {
        2
    }
}

/// The signal a bar gives: a brick on a side opens a signal on that side when
/// the last signal was elsewhere or its opposite stop was hit.
pub open spec fn settled_signal(
    s: RenkoState,
    brick: Option<Side>,
    close_at_or_below_stop: bool,
    close_at_or_above_stop: bool,
) -> Option<Side> {
    let stop_buy_triggered = s.last_signal == Some(Side::Bullish) && close_at_or_below_stop;
    let stop_sell_triggered = s.last_signal == Some(Side::Bearish) && close_at_or_above_stop;
    if brick == Some(Side::Bullish) && (s.last_signal != Some(Side::Bullish) || stop_sell_triggered) {
        Some(Side::Bullish)
    } else if brick == Some(Side::Bearish) && (s.last_signal != Some(Side::Bearish)
        || stop_buy_triggered) {
        Some(Side::Bearish)
    } else {
        None
    }
}

/// The state after the signal of a bar: a new signal becomes the last one and
/// restarts the run at one brick.
pub open spec fn settled(s: RenkoState, signal: Option<Side>) -> RenkoState {
    match signal {
        Some(side) => RenkoState { last_signal: Some(side), consecutive_bricks: 1 },
        None => s,
    }
}

/// Between bars, the run of bricks is empty exactly while no signal was given.
pub open spec fn renko_consistent(s: RenkoState) -> bool {
    (s.last_signal is None) == (s.consecutive_bricks == 0)
}

impl RenkoState {
    /// Before the first bar.
    pub fn start() -> (s: RenkoState)
        ensures
            s.last_signal is None,
            s.consecutive_bricks == 0,
            renko_consistent(s),
    {
        RenkoState { last_signal: None, consecutive_bricks: 0 }
    }

    /// Counts the brick (if any) that the bar's close formed.
    pub fn count_brick(self, brick: Option<Side>) -> (r: RenkoState)
        requires
            self.consecutive_bricks < usize::MAX,
        ensures
            r == counted(self, brick),
    {
        match brick {
            Some(side) => {
                let same = match (self.last_signal, side) {
                    (Some(Side::Bullish), Side::Bullish) => true,
                    (Some(Side::Bearish), Side::Bearish) => true,
                    _ => false,
                };
                let bricks = if same {
                    self.consecutive_bricks + 1
                } else {
                    1
                };
                RenkoState { last_signal: self.last_signal, consecutive_bricks: bricks }
            },
            None => self,
        }
    }

    /// The trailing-stop tolerance for the current run, in halves of a brick.
    pub fn tolerance_halves(self) -> (h: u32)
        ensures
            h == tolerance_in_halves(self.consecutive_bricks as int),
    {
        let bricks = self.consecutive_bricks;
        if bricks >= 27 {
            6
        } else if bricks >= 10 {
            4
        } else if bricks >= 4 {
            3
        } else {
            2
        }
    }

    /// Decides the bar's signal once the trailing stop is updated, given
    /// whether the close is at or below the stop and at or above it (both
    /// false when there is no stop). Returns the state to carry on and the
    /// signal.
    pub fn settle(
        self,
        brick: Option<Side>,
        close_at_or_below_stop: bool,
        close_at_or_above_stop: bool,
    ) -> (r: (RenkoState, Option<Side>))
        ensures
            r.1 == settled_signal(self, brick, close_at_or_below_stop, close_at_or_above_stop),
            r.0 == settled(self, r.1),
    {
        let last_bull = match self.last_signal {
            Some(Side::Bullish) => true,
            _ => false,
        };
        let last_bear = match self.last_signal {
            Some(Side::Bearish) => true,
            _ => false,
        };
        let stop_buy_triggered = last_bull && close_at_or_below_stop;
        let stop_sell_triggered = last_bear && close_at_or_above_stop;
        let green = match brick {
            Some(Side::Bullish) => true,
            _ => false,
        };
        let red = match brick {
            Some(Side::Bearish) => true,
            _ => false,
        };
        if green && (!last_bull || stop_sell_triggered) {
            (RenkoState { last_signal: Some(Side::Bullish), consecutive_bricks: 1 }, Some(Side::Bullish))
        } else if red && (!last_bear || stop_buy_triggered) {
            (RenkoState { last_signal: Some(Side::Bearish), consecutive_bricks: 1 }, Some(Side::Bearish))
        } else {
            (self, None)
        }
    }
}

/// A full bar (count the brick, then settle the signal) keeps the run of
/// bricks empty exactly while no signal has been given.
pub proof fn law_renko_bar_keeps_consistency(
    s: RenkoState,
    brick: Option<Side>,
    close_at_or_below_stop: bool,
    close_at_or_above_stop: bool,
)
    requires
        renko_consistent(s),
        s.consecutive_bricks < usize::MAX,
    ensures
        ({
            let c = counted(s, brick);
            let signal = settled_signal(c, brick, close_at_or_below_stop, close_at_or_above_stop);
            renko_consistent(settled(c, signal))
        }),
{
}

/// Signals alternate: a bar signals a side only when the last signal was not
/// on that side, and that side then becomes the last signal. In particular
/// the trailing stop never decides a signal on its own.
pub proof fn law_renko_signals_alternate(
    s: RenkoState,
    brick: Option<Side>,
    close_at_or_below_stop: bool,
    close_at_or_above_stop: bool,
)
    ensures
        ({
            let signal = settled_signal(s, brick, close_at_or_below_stop, close_at_or_above_stop);
            &&& signal is Some ==> s.last_signal != signal && signal == brick
            &&& signal == (if brick is Some && s.last_signal != brick {
                brick
            } else {
                None
            })
        }),
{
    match (brick, s.last_signal) {
        (Some(Side::Bullish), Some(Side::Bullish)) => {},
        (Some(Side::Bullish), _) => {},
        (Some(Side::Bearish), Some(Side::Bearish)) => {},
        (Some(Side::Bearish), _) => {},
        (None, _) => {},
    }
}

/// A brick on the side of the last signal lengthens the run by one, a brick
/// on any other side starts a run of one, and no brick leaves the state as
/// it is; the last signal itself never changes when counting.
pub proof fn law_bricks_extend_or_restart(s: RenkoState, brick: Option<Side>)
    requires
        s.consecutive_bricks < usize::MAX,
    ensures
        counted(s, brick).last_signal == s.last_signal,
        brick is None ==> counted(s, brick) == s,
        brick is Some && brick == s.last_signal ==> counted(s, brick).consecutive_bricks == s.consecutive_bricks
            + 1,
        brick is Some && brick != s.last_signal ==> counted(s, brick).consecutive_bricks == 1,
{
}

/// The tolerance is one brick for runs under four, one and a half up to
/// nine, two up to 26 and three from 27 on.
pub proof fn law_tolerance_steps(bricks: int)
    ensures
        bricks < 4 ==> tolerance_in_halves(bricks) == 2,
        4 <= bricks < 10 ==> tolerance_in_halves(bricks) == 3,
        10 <= bricks < 27 ==> tolerance_in_halves(bricks) == 4,
        27 <= bricks ==> tolerance_in_halves(bricks) == 6,
{
}

/// A longer run of bricks never gets a tighter stop tolerance.
pub proof fn law_tolerance_widens_with_run(a: int, b: int)
    requires
        a <= b,
    ensures
        tolerance_in_halves(a) <= tolerance_in_halves(b),
{
}

} // verus!
