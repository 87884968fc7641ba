use vstd::prelude::*;

use crate::side::{Side, classify_side, side_of};

verus! {

/// What one bar of the volumetric trend ribbon reads from its prices.
#[derive(Clone, Copy, Debug, PartialEq, Eq, Structural)]
pub struct RibbonBar {
    /// The previous smoothed base exists and the base rose from it.
    pub rising: bool,
    /// The previous smoothed base exists and the base fell from it.
    pub falling: bool,
    /// The close is above the base.
    pub close_above_base: bool,
    /// The close is below the base.
    pub close_below_base: bool,
    /// Both this bar's and the previous bar's bands exist, the previous close
    /// was at or under the previous upper band and the close is above the
    /// upper band.
    pub breaks_upper: bool,
    /// Both bands exist, the previous close was at or over the previous lower
    /// band and the close is below the lower band.
    pub breaks_lower: bool,
    /// A target is held and the high is above it.
    pub high_above_target: bool,
    /// A target is held and the low is below it.
    pub low_below_target: bool,
}

/// What happens to the projected target price on a bar.
#[derive(Clone, Copy, Debug, PartialEq, Eq, Structural)]
pub enum TargetMove {
    /// Project a new target above the upper band.
    Above,
    /// Project a new target below the lower band.
    Below,
    /// Drop the target.
    Clear,
    /// Keep the target as it is.
    Hold,
}

/// The ribbon's verdict on one bar.
#[derive(Clone, Copy, Debug, PartialEq, Eq, Structural)]
pub struct RibbonCall {
    pub side: Option<Side>,
    pub trend_age: usize,
    pub bull_cross: bool,
    pub bear_cross: bool,
    pub target: TargetMove,
}

/// What the ribbon carries from one evaluated bar to the next.
#[derive(Clone, Copy, Debug, PartialEq, Eq, Structural)]
pub struct RibbonTrend {
    pub trend_age: usize,
    pub previous_side: Option<Side>,
}

/// The trend side of a bar: up when the base rises and the close is above
/// it, down when the base falls and the close is below it.
pub open spec fn ribbon_side(bar: RibbonBar) -> Option<Side> {
    side_of(bar.rising && bar.close_above_base, bar.falling && bar.close_below_base)
}

/// The trend age after a bar: one more than before while the side holds,
/// zero when there is no side or it changed.
pub open spec fn next_age(trend: RibbonTrend, side: Option<Side>) -> int {
    if side is Some && side == trend.previous_side {
        trend.trend_age + 1
    } else {
        0
    }
}

/// The target move of a bar: a band break in the trend's direction projects
/// a new target; otherwise the target is dropped when there is no trend or
/// the trend has reached it, and kept else.
pub open spec fn target_move(bar: RibbonBar) -> TargetMove {
    let side = ribbon_side(bar);
    let is_up = bar.rising && bar.close_above_base;
    let is_down = bar.falling && bar.close_below_base;
    if bar.breaks_upper && is_up {
        TargetMove::Above
    } else if bar.breaks_lower && is_down {
        TargetMove::Below
    } else if side is None || (side == Some(Side::Bullish) && bar.high_above_target) || (side
        == Some(Side::Bearish) && bar.low_below_target) {
        TargetMove::Clear
    } else {
        TargetMove::Hold
    }
}

impl RibbonTrend {
    /// No bar seen yet.
    pub fn start() -> (t: RibbonTrend)
        ensures
            t.trend_age == 0,
            t.previous_side is None,
    {
        RibbonTrend { trend_age: 0, previous_side: None }
    }

    /// Evaluates one bar and returns the trend to carry on with.
    pub fn advance(self, bar: RibbonBar) -> (r: (RibbonTrend, RibbonCall))
        requires
            self.trend_age < usize::MAX,
        ensures
            r.1.side == ribbon_side(bar),
            r.1.trend_age == next_age(self, ribbon_side(bar)),
            r.1.bull_cross == (bar.breaks_upper && bar.rising && bar.close_above_base),
            r.1.bear_cross == (bar.breaks_lower && bar.falling && bar.close_below_base),
            r.1.target == target_move(bar),
            r.0.trend_age == r.1.trend_age,
            r.0.previous_side == r.1.side,
    {
        let is_up = bar.rising && bar.close_above_base;
        let is_down = bar.falling && bar.close_below_base;
        let side = classify_side(is_up, is_down);
        let same = match (side, self.previous_side) {
            (Some(Side::Bullish), Some(Side::Bullish)) => true,
            (Some(Side::Bearish), Some(Side::Bearish)) => true,
            _ => false,
        };
        let trend_age = if same {
            self.trend_age + 1
        } else {
            0
        };
        let bull_cross = bar.breaks_upper && is_up;
        let bear_cross = bar.breaks_lower && is_down;
        let reached = match side {
            Some(Side::Bullish) => bar.high_above_target,
            Some(Side::Bearish) => bar.low_below_target,
            None => true,
        };
        let target = if bull_cross {
            TargetMove::Above
        } else if bear_cross {
            TargetMove::Below
        } else if reached {
            TargetMove::Clear
        } else {
            TargetMove::Hold
        };
        let call = RibbonCall { side, trend_age, bull_cross, bear_cross, target };
        (RibbonTrend { trend_age, previous_side: side }, call)
    }
}

/// Without a band break, an uptrend keeps its target exactly while the high
/// has not gone above it and a downtrend exactly while the low has not gone
/// below it, whatever the other extreme does; a bar without a trend drops
/// the target.
pub proof fn law_target_kept_until_reached(bar: RibbonBar)
    requires
        !bar.breaks_upper,
        !bar.breaks_lower,
    ensures
        bar.rising && bar.close_above_base ==> (target_move(bar) == TargetMove::Hold) == !bar.high_above_target
            && (target_move(bar) == TargetMove::Clear) == bar.high_above_target,
        !(bar.rising && bar.close_above_base) && bar.falling && bar.close_below_base ==> (target_move(bar)
            == TargetMove::Hold) == !bar.low_below_target && (target_move(bar) == TargetMove::Clear)
            == bar.low_below_target,
        !(bar.rising && bar.close_above_base) && !(bar.falling && bar.close_below_base) ==> target_move(bar)
            == TargetMove::Clear,
{
}

/// A bar is bullish exactly when its base rises with the close above it, and
/// bearish exactly when, failing that, its base falls with the close below it.
pub proof fn law_ribbon_side_follows_base(bar: RibbonBar)
    ensures
        (ribbon_side(bar) == Some(Side::Bullish)) == (bar.rising && bar.close_above_base),
        (ribbon_side(bar) == Some(Side::Bearish)) == (!(bar.rising && bar.close_above_base) && bar.falling
            && bar.close_below_base),
{
}

/// A new target is projected only on a band break in the trend's direction:
/// above the upper band on an upward break in an uptrend, below the lower
/// band on a downward break in a downtrend.
pub proof fn law_targets_start_on_band_breaks(bar: RibbonBar)
    ensures
        (target_move(bar) == TargetMove::Above) == (bar.breaks_upper && bar.rising && bar.close_above_base),
        target_move(bar) == TargetMove::Below ==> bar.breaks_lower && bar.falling && bar.close_below_base,
{
}

/// The trend after evaluating `bars` one after another from `trend`.
pub open spec fn run_ribbon(trend: RibbonTrend, bars: Seq<RibbonBar>) -> RibbonTrend
    decreases bars.len(),
{
    if bars.len() == 0 {
        trend
    } else {
        let before = run_ribbon(trend, bars.drop_last());
        let side = ribbon_side(bars.last());
        RibbonTrend { trend_age: next_age(before, side) as usize, previous_side: side }
    }
}

/// While every bar keeps the trend on the side it already had, the trend age
/// grows by exactly one per bar.
pub proof fn law_trend_age_counts_bars(trend: RibbonTrend, bars: Seq<RibbonBar>, side: Side)
    requires
        trend.previous_side == Some(side),
        forall|k: int| 0 <= k < bars.len() ==> ribbon_side(#[trigger] bars[k]) == Some(side),
        trend.trend_age + bars.len() <= usize::MAX,
    ensures
        run_ribbon(trend, bars).trend_age == trend.trend_age + bars.len(),
        run_ribbon(trend, bars).previous_side == Some(side),
    decreases bars.len(),
{
    if bars.len() > 0 {
        let rest = bars.drop_last();
        assert forall|k: int| 0 <= k < rest.len() implies ribbon_side(#[trigger] rest[k]) == Some(side) by {
            assert(rest[k] == bars[k]);
        }
        law_trend_age_counts_bars(trend, rest, side);
        assert(ribbon_side(bars[bars.len() - 1]) == Some(side));
    }
}

/// A bar without a trend side resets the trend age to zero, whatever came
/// before.
pub proof fn law_trend_age_resets_without_side(trend: RibbonTrend, bars: Seq<RibbonBar>)
    requires
        bars.len() > 0,
        ribbon_side(bars.last()) is None,
    ensures
        run_ribbon(trend, bars).trend_age == 0,
        run_ribbon(trend, bars).previous_side is None,
{
}

} // verus!
