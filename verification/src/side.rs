use vstd::prelude::*;

verus! {

/// Direction of a signal, a trend or a candle body.
#[derive(Clone, Copy, Debug, PartialEq, Eq, Structural)]
pub enum Side {
    Bullish,
    Bearish,
}

/// Whether a confirmed pivot is a swing high or a swing low.
#[derive(Clone, Copy, Debug, PartialEq, Eq, Structural)]
pub enum PivotKind {
    High,
    Low,
}

/// The side chosen when `bullish` has priority over `bearish`.
pub open spec fn side_of(bullish: bool, bearish: bool) -> Option<Side> {
    if bullish {
        Some(Side::Bullish)
    } else if bearish {
        Some(Side::Bearish)
    } else {
        None
    }
}

/// Picks `Bullish` when `bullish` holds, else `Bearish` when `bearish` holds,
/// else no side.
pub fn classify_side(bullish: bool, bearish: bool) -> (r: Option<Side>)
    ensures
        r == side_of(bullish, bearish),
{
    if bullish {
        Some(Side::Bullish)
    } else if bearish {
        Some(Side::Bearish)
    } else {
        None
    }
}

/// A crossing between two bars: bullish when the first quantity was at or
/// below the second on the previous bar and is above it now, bearish when it
/// was at or above and is below now.
pub open spec fn crossing_of(
    was_at_or_below: bool,
    was_at_or_above: bool,
    now_above: bool,
    now_below: bool,
) -> Option<Side> {
    side_of(was_at_or_below && now_above, was_at_or_above && now_below)
}

/// Detects a crossing from the previous bar's and this bar's comparisons
/// (all false when there is no previous bar to compare).
pub fn crossing(was_at_or_below: bool, was_at_or_above: bool, now_above: bool, now_below: bool) -> (r:
    Option<Side>)
    ensures
        r == crossing_of(was_at_or_below, was_at_or_above, now_above, now_below),
{
    classify_side(was_at_or_below && now_above, was_at_or_above && now_below)
}

/// A bullish side is reported exactly when the bullish condition holds, and
/// a bearish one exactly when the bearish condition holds and the bullish
/// one does not.
pub proof fn law_classify_side_follows_conditions(bullish: bool, bearish: bool)
    ensures
        (side_of(bullish, bearish) == Some(Side::Bullish)) == bullish,
        (side_of(bullish, bearish) == Some(Side::Bearish)) == (!bullish && bearish),
        (side_of(bullish, bearish) is None) == (!bullish && !bearish),
{
}

/// A bullish crossing happens exactly when the first quantity was at or
/// below the second on the previous bar and is above it now; a bearish one
/// needs it to have been at or above and to be below now. Without a
/// previous comparison (both previous flags false) there is no crossing.
pub proof fn law_crossing_needs_previous_side(
    was_at_or_below: bool,
    was_at_or_above: bool,
    now_above: bool,
    now_below: bool,
)
    ensures
        (crossing_of(was_at_or_below, was_at_or_above, now_above, now_below) == Some(Side::Bullish))
            == (was_at_or_below && now_above),
        crossing_of(was_at_or_below, was_at_or_above, now_above, now_below) == Some(Side::Bearish)
            ==> was_at_or_above && now_below,
        was_at_or_above && now_below && !now_above ==> crossing_of(
            was_at_or_below,
            was_at_or_above,
            now_above,
            now_below,
        ) == Some(Side::Bearish),
        !was_at_or_below && !was_at_or_above ==> crossing_of(
            was_at_or_below,
            was_at_or_above,
            now_above,
            now_below,
        ) is None,
{
}

} // verus!
