use vstd::prelude::*;

use crate::keys::{BarKeys, high_keys, key_gt, key_lt, key_greater, key_less, low_keys};
use crate::side::PivotKind;
use crate::windows::is_first_extreme;

verus! {

/// A swing point, found at `pivot_index` and known once `confirmed_index`
/// is reached.
#[derive(Clone, Copy, Debug, PartialEq, Eq, Structural)]
pub struct PivotMark {
    pub pivot_index: usize,
    pub confirmed_index: usize,
    pub kind: PivotKind,
}

/// The high at `center` is strictly above every other high from
/// `center - left` to `center + right`.
pub open spec fn is_pivot_high(bars: Seq<BarKeys>, center: int, left: int, right: int) -> bool {
    forall|j: int|
        center - left <= j <= center + right && j != center ==> key_gt(
            bars[center].high,
            #[trigger] bars[j].high,
        )
}

/// The low at `center` is strictly below every other low from
/// `center - left` to `center + right`.
pub open spec fn is_pivot_low(bars: Seq<BarKeys>, center: int, left: int, right: int) -> bool {
    forall|j: int|
        center - left <= j <= center + right && j != center ==> key_lt(
            bars[center].low,
            #[trigger] bars[j].low,
        )
}

/// The pivots confirmed at bar `c`: those centred `right` bars earlier, with
/// `left` bars before the centre; a high pivot comes before a low one.
pub open spec fn marks_at(bars: Seq<BarKeys>, left: int, right: int, c: int) -> Seq<PivotMark> {
    if left + right <= c < bars.len() {
        let center = c - right;
        let high_part = if is_pivot_high(bars, center, left, right) {
            seq![PivotMark { pivot_index: center as usize, confirmed_index: c as usize, kind: PivotKind::High }]
        } else {
            Seq::<PivotMark>::empty()
        };
        let low_part = if is_pivot_low(bars, center, left, right) {
            seq![PivotMark { pivot_index: center as usize, confirmed_index: c as usize, kind: PivotKind::Low }]
        } else {
            Seq::<PivotMark>::empty()
        };
        high_part + low_part
    } else {
        Seq::<PivotMark>::empty()
    }
}


/// Every pivot confirmed at bar `c` is centred `right` bars earlier, at least
/// `left` bars into the series, and is a strict extreme of its kind.
pub proof fn lemma_marks_at_facts(bars: Seq<BarKeys>, left: int, right: int, c: int)
    requires
        0 <= left,
        0 <= right,
        bars.len() <= usize::MAX,
    ensures
        marks_at(bars, left, right, c).len() <= 2,
        forall|k: int|
            0 <= k < marks_at(bars, left, right, c).len() ==> {
                let m = #[trigger] marks_at(bars, left, right, c)[k];
                &&& m.pivot_index == c - right
                &&& m.confirmed_index == c
                &&& left <= c - right
                &&& c < bars.len()
                &&& (m.kind == PivotKind::High ==> is_pivot_high(bars, c - right, left, right))
                &&& (m.kind == PivotKind::Low ==> is_pivot_low(bars, c - right, left, right))
            },
{
}

fn scan_pivot_high(bars: &Vec<BarKeys>, center: usize, left: usize, right: usize) -> (r: bool)
    requires
        left <= center,
        center + right < bars.len(),
    ensures
        r == is_pivot_high(bars@, center as int, left as int, right as int),
{
    let start = center - left;
    let end = center + right;
    let mut j = start;
    while j <= end
        invariant
            start == center - left,
            end == center + right,
            end < bars.len(),
            start <= j <= end + 1,
            forall|k: int|
                start <= k < j && k != center ==> key_gt(bars@[center as int].high, #[trigger] bars@[k].high),
        decreases end + 1 - j,
    {
        if j != center && !key_greater(bars[center].high, bars[j].high) {
            return false;
        }
        j += 1;
    }
    true
}

fn scan_pivot_low(bars: &Vec<BarKeys>, center: usize, left: usize, right: usize) -> (r: bool)
    requires
        left <= center,
        center + right < bars.len(),
    ensures
        r == is_pivot_low(bars@, center as int, left as int, right as int),
{
    let start = center - left;
    let end = center + right;
    let mut j = start;
    while j <= end
        invariant
            start == center - left,
            end == center + right,
            end < bars.len(),
            start <= j <= end + 1,
            forall|k: int|
                start <= k < j && k != center ==> key_lt(bars@[center as int].low, #[trigger] bars@[k].low),
        decreases end + 1 - j,
    {
        if j != center && !key_less(bars[center].low, bars[j].low) {
            return false;
        }
        j += 1;
    }
    true
}

/// For every bar, the swing highs and lows confirmed at that bar: a bar is a
/// pivot high when its high is strictly above the highs of the `left` bars
/// before it and the `right` bars after it, and it is confirmed `right` bars
/// later (likewise for lows, strictly below).
pub fn confirmed_pivots(bars: &Vec<BarKeys>, left: usize, right: usize) -> (out: Vec<Vec<PivotMark>>)
    requires
        left > 0,
        right > 0,
    ensures
        out.len() == bars.len(),
        forall|c: int|
            0 <= c < bars.len() ==> (#[trigger] out@[c])@ == marks_at(
                bars@,
                left as int,
                right as int,
                c,
            ),
{
    let n = bars.len();
    let mut out: Vec<Vec<PivotMark>> = Vec::new();
    let mut c: usize = 0;
    while c < n
        invariant
            n == bars.len(),
            c <= n,
            out.len() == c,
            forall|k: int|
                0 <= k < c ==> (#[trigger] out@[k])@ == marks_at(bars@, left as int, right as int, k),
        decreases n - c,
    {
        let mut marks: Vec<PivotMark> = Vec::new();
        if c >= right && c - right >= left {
            let center = c - right;
            if scan_pivot_high(bars, center, left, right) {
                marks.push(PivotMark { pivot_index: center, confirmed_index: c, kind: PivotKind::High });
            }
            if scan_pivot_low(bars, center, left, right) {
                marks.push(PivotMark { pivot_index: center, confirmed_index: c, kind: PivotKind::Low });
            }
            proof {
                let s = marks_at(bars@, left as int, right as int, c as int);
                assert(marks@ =~= s);
            }
        } else {
            proof {
                assert(marks@ =~= marks_at(bars@, left as int, right as int, c as int));
            }
        }
        out.push(marks);
        c += 1;
    }
    out
}

/// A pivot high is the one extreme of its window: looking for the highest
/// high from `left` bars before it to `right` bars after it finds exactly
/// the pivot (likewise the lowest low for a pivot low).
pub proof fn law_pivot_is_window_extreme(bars: Seq<BarKeys>, center: int, left: int, right: int)
    requires
        0 < left <= center,
        0 < right,
        center + right < bars.len(),
        center <= usize::MAX,
    ensures
        is_pivot_high(bars, center, left, right) ==> is_first_extreme(
            high_keys(bars),
            center - left,
            center + right + 1,
            true,
            Some(center as usize),
        ),
        is_pivot_low(bars, center, left, right) ==> is_first_extreme(
            low_keys(bars),
            center - left,
            center + right + 1,
            false,
            Some(center as usize),
        ),
{
    let highs = high_keys(bars);
    let lows = low_keys(bars);
    if is_pivot_high(bars, center, left, right) {
        assert(highs[center] == bars[center].high);
        assert forall|j: int| center - left <= j < center + right + 1 && j != center implies key_gt(
            highs[center],
            #[trigger] highs[j],
        ) by {
            assert(highs[j] == bars[j].high);
            assert(key_gt(bars[center].high, bars[j].high));
        }
        assert(key_gt(highs[center], highs[center - 1]));
        assert(is_first_extreme(highs, center - left, center + right + 1, true, Some(center as usize)));
    }
    if is_pivot_low(bars, center, left, right) {
        assert(lows[center] == bars[center].low);
        assert forall|j: int| center - left <= j < center + right + 1 && j != center implies key_lt(
            lows[center],
            #[trigger] lows[j],
        ) by {
            assert(lows[j] == bars[j].low);
            assert(key_lt(bars[center].low, bars[j].low));
        }
        assert(key_lt(lows[center], lows[center - 1]));
        assert(is_first_extreme(lows, center - left, center + right + 1, false, Some(center as usize)));
    }
}

} // verus!
