use vstd::prelude::*;

verus! {

/// Market phase in the Wyckoff reading of a trading range.
#[derive(Clone, Copy, Debug, PartialEq, Eq, Structural)]
pub enum WyckoffPhase {
    Accumulation,
    Markup,
    Distribution,
    Markdown,
    Neutral,
}

/// What one bar's prices say against the range of the bars before it.
#[derive(Clone, Copy, Debug, PartialEq, Eq, Structural)]
pub struct WyckoffReading {
    /// The close is above the range high.
    pub close_above_range: bool,
    /// The close is below the range low.
    pub close_below_range: bool,
    /// The trend slope over the lookback is above zero.
    pub slope_up: bool,
    /// The trend slope over the lookback is below zero.
    pub slope_down: bool,
    /// The close sits in the lowest 35% of the range.
    pub near_range_low: bool,
    /// The close sits in the highest 35% of the range.
    pub near_range_high: bool,
    /// Volume is at least 1.1 times its average.
    pub volume_surge: bool,
    /// The trend slope is at least -2%.
    pub slope_above_floor: bool,
    /// The trend slope is at most +2%.
    pub slope_below_ceiling: bool,
}

/// The phase of a reading, first match wins: a close above the range on an
/// up slope is markup, below the range on a down slope is markdown, a close
/// low in the range on surging volume without a steep fall is accumulation,
/// high in the range on surging volume without a steep rise is distribution,
/// and anything else is neutral.
pub open spec fn phase_of(r: WyckoffReading) -> WyckoffPhase {
    if r.close_above_range && r.slope_up {
        WyckoffPhase::Markup
    } else if r.close_below_range && r.slope_down {
        WyckoffPhase::Markdown
    } else if r.near_range_low && r.volume_surge && r.slope_above_floor {
        WyckoffPhase::Accumulation
    } else if r.near_range_high && r.volume_surge && r.slope_below_ceiling {
        WyckoffPhase::Distribution
    } else {
        WyckoffPhase::Neutral
    }
}

/// Classifies a bar into its Wyckoff phase.
pub fn classify_phase(r: WyckoffReading) -> (p: WyckoffPhase)
    ensures
        p == phase_of(r),
{
    if r.close_above_range && r.slope_up {
        WyckoffPhase::Markup
    } else if r.close_below_range && r.slope_down {
        WyckoffPhase::Markdown
    } else if r.near_range_low && r.volume_surge && r.slope_above_floor {
        WyckoffPhase::Accumulation
    } else if r.near_range_high && r.volume_surge && r.slope_below_ceiling {
        WyckoffPhase::Distribution
    } else {
        WyckoffPhase::Neutral
    }
}

/// A close above the range on an up slope is markup, whatever the range
/// position, volume and slope bounds; a close below the range on a down
/// slope that is not markup is markdown. Accumulation and distribution need
/// surging volume and the close at the matching end of the range, and never
/// apply to a markup or markdown bar.
pub proof fn law_breakouts_come_first(r: WyckoffReading)
    ensures
        r.close_above_range && r.slope_up ==> phase_of(r) == WyckoffPhase::Markup,
        !(r.close_above_range && r.slope_up) && r.close_below_range && r.slope_down ==> phase_of(r)
            == WyckoffPhase::Markdown,
        phase_of(r) == WyckoffPhase::Markup ==> r.close_above_range && r.slope_up,
        phase_of(r) == WyckoffPhase::Markdown ==> r.close_below_range && r.slope_down,
        phase_of(r) == WyckoffPhase::Accumulation ==> {
            &&& r.near_range_low && r.volume_surge && r.slope_above_floor
            &&& !(r.close_above_range && r.slope_up)
            &&& !(r.close_below_range && r.slope_down)
        },
        phase_of(r) == WyckoffPhase::Distribution ==> {
            &&& r.near_range_high && r.volume_surge && r.slope_below_ceiling
            &&& !(r.close_above_range && r.slope_up)
            &&& !(r.close_below_range && r.slope_down)
            &&& !(r.near_range_low && r.volume_surge && r.slope_above_floor)
        },
        !r.volume_surge && !(r.close_above_range && r.slope_up) && !(r.close_below_range
            && r.slope_down) ==> phase_of(r) == WyckoffPhase::Neutral,
{
}

} // verus!
