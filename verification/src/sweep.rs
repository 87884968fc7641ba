use vstd::prelude::*;

use crate::keys::{BarKeys, key_gt, key_lt, key_greater, key_less};
use crate::pivots::{PivotMark, confirmed_pivots, is_pivot_high, is_pivot_low, lemma_marks_at_facts, marks_at};
use crate::side::{PivotKind, Side};

verus! {

/// A liquidity sweep: the bar ran through the level of a confirmed pivot and
/// closed back on the other side of it.
#[derive(Clone, Copy, Debug, PartialEq, Eq, Structural)]
pub struct SweepMark {
    pub side: Side,
    pub swept_pivot_index: usize,
}

/// What the sweep scan remembers between bars: the latest confirmed high and
/// low pivots, and the bars of the latest bullish and bearish sweeps.
pub struct SweepMemory {
    pub last_high: Option<usize>,
    pub last_low: Option<usize>,
    pub last_bull: Option<usize>,
    pub last_bear: Option<usize>,
}

/// Nothing remembered before the first bar.
pub open spec fn initial_memory() -> SweepMemory {
    SweepMemory { last_high: None, last_low: None, last_bull: None, last_bear: None }
}

/// Takes the pivots confirmed at a bar into the memory, in order.
pub open spec fn absorb_marks(m: SweepMemory, marks: Seq<PivotMark>) -> SweepMemory
    decreases marks.len(),
{
    if marks.len() == 0 {
        m
    } else {
        let before = absorb_marks(m, marks.drop_last());
        let mark = marks.last();
        match mark.kind {
            PivotKind::High => SweepMemory { last_high: Some(mark.pivot_index), ..before },
            PivotKind::Low => SweepMemory { last_low: Some(mark.pivot_index), ..before },
        }
    }
}

/// No sweep on the same side within `cooldown` bars before bar `i`.
pub open spec fn cooled(last: Option<usize>, i: int, cooldown: int) -> bool {
    match last {
        None => true,
        Some(l) => i - l > cooldown,
    }
}

/// Bar `i` sweeps the latest low pivot: its low goes below the pivot's low
/// and it closes above it, outside the cooldown.
pub open spec fn bull_sweep(bars: Seq<BarKeys>, m: SweepMemory, i: int, cooldown: int) -> bool {
    &&& m.last_low is Some
    &&& key_lt(bars[i].low, bars[m.last_low->0 as int].low)
    &&& key_gt(bars[i].close, bars[m.last_low->0 as int].low)
    &&& cooled(m.last_bull, i, cooldown)
}

/// Bar `i` sweeps the latest high pivot: its high goes above the pivot's
/// high and it closes below it, outside the cooldown.
pub open spec fn bear_sweep(bars: Seq<BarKeys>, m: SweepMemory, i: int, cooldown: int) -> bool {
    &&& m.last_high is Some
    &&& key_gt(bars[i].high, bars[m.last_high->0 as int].high)
    &&& key_lt(bars[i].close, bars[m.last_high->0 as int].high)
    &&& cooled(m.last_bear, i, cooldown)
}

/// The memory after bar `i`, given the memory `m` before it.
pub open spec fn next_memory(
    bars: Seq<BarKeys>,
    spikes: Seq<bool>,
    pivot_len: int,
    cooldown: int,
    m: SweepMemory,
    i: int,
) -> SweepMemory {
    let s = absorb_marks(m, marks_at(bars, pivot_len, pivot_len, i));
    SweepMemory {
        last_bull: if spikes[i] && bull_sweep(bars, s, i, cooldown) {
            Some(i as usize)
        } else {
            s.last_bull
        },
        last_bear: if spikes[i] && bear_sweep(bars, s, i, cooldown) {
            Some(i as usize)
        } else {
            s.last_bear
        },
        ..s
    }
}

/// The memory before bar `i` is processed.
pub open spec fn memory_before(
    bars: Seq<BarKeys>,
    spikes: Seq<bool>,
    pivot_len: int,
    cooldown: int,
    i: int,
) -> SweepMemory
    decreases i,
{
    if i <= 0 {
        initial_memory()
    } else {
        next_memory(
            bars,
            spikes,
            pivot_len,
            cooldown,
            memory_before(bars, spikes, pivot_len, cooldown, i - 1),
            i - 1,
        )
    }
}

/// The memory at bar `i` once that bar's confirmed pivots are taken in.
pub open spec fn seen_at(
    bars: Seq<BarKeys>,
    spikes: Seq<bool>,
    pivot_len: int,
    cooldown: int,
    i: int,
) -> SweepMemory {
    absorb_marks(
        memory_before(bars, spikes, pivot_len, cooldown, i),
        marks_at(bars, pivot_len, pivot_len, i),
    )
}

/// Bar `i` is a bullish sweep: a volume spike bar that sweeps the latest low.
pub open spec fn bull_at(bars: Seq<BarKeys>, spikes: Seq<bool>, pivot_len: int, cooldown: int, i: int) -> bool {
    spikes[i] && bull_sweep(bars, seen_at(bars, spikes, pivot_len, cooldown, i), i, cooldown)
}

/// Bar `i` is a bearish sweep: a volume spike bar that sweeps the latest high.
pub open spec fn bear_at(bars: Seq<BarKeys>, spikes: Seq<bool>, pivot_len: int, cooldown: int, i: int) -> bool {
    spikes[i] && bear_sweep(bars, seen_at(bars, spikes, pivot_len, cooldown, i), i, cooldown)
}

/// The sweeps reported at bar `i`, bullish first.
pub open spec fn sweeps_at(bars: Seq<BarKeys>, spikes: Seq<bool>, pivot_len: int, cooldown: int, i: int) -> Seq<SweepMark> {
    let m = seen_at(bars, spikes, pivot_len, cooldown, i);
    let bull = if bull_at(bars, spikes, pivot_len, cooldown, i) {
        seq![SweepMark { side: Side::Bullish, swept_pivot_index: m.last_low->0 }]
    } else {
        Seq::<SweepMark>::empty()
    };
    let bear = if bear_at(bars, spikes, pivot_len, cooldown, i) {
        seq![SweepMark { side: Side::Bearish, swept_pivot_index: m.last_high->0 }]
    } else {
        Seq::<SweepMark>::empty()
    };
    bull + bear
}

/// For every bar, the liquidity sweeps it makes.
///
/// Pivots are confirmed with `pivot_len` bars on each side. On a bar whose
/// `spikes` entry is set (its volume stands out), a bullish sweep takes the
/// latest confirmed low: the bar's low goes below it and its close ends above
/// it. A bearish sweep does the same to the latest confirmed high. A side
/// fires again only more than `cooldown` bars after its previous sweep.
pub fn liquidity_sweeps(
    bars: &Vec<BarKeys>,
    spikes: &Vec<bool>,
    pivot_len: usize,
    cooldown: usize,
) -> (out: Vec<Vec<SweepMark>>)
    requires
        pivot_len > 0,
        spikes.len() == bars.len(),
    ensures
        out.len() == bars.len(),
        forall|i: int|
            0 <= i < bars.len() ==> (#[trigger] out@[i])@ == sweeps_at(
                bars@,
                spikes@,
                pivot_len as int,
                cooldown as int,
                i,
            ),
{
    let n = bars.len();
    let pivots = confirmed_pivots(bars, pivot_len, pivot_len);
    let ghost pl = pivot_len as int;
    let ghost cd = cooldown as int;
    let mut last_high: Option<usize> = None;
    let mut last_low: Option<usize> = None;
    let mut last_bull: Option<usize> = None;
    let mut last_bear: Option<usize> = None;
    let mut out: Vec<Vec<SweepMark>> = Vec::new();
    let mut i: usize = 0;
    while i < n
        invariant
            n == bars.len(),
            n == spikes.len(),
            pivot_len > 0,
            pl == pivot_len as int,
            cd == cooldown as int,
            i <= n,
            pivots.len() == n,
            forall|c: int| 0 <= c < n ==> (#[trigger] pivots@[c])@ == marks_at(bars@, pl, pl, c),
            out.len() == i,
            (SweepMemory { last_high, last_low, last_bull, last_bear }) == memory_before(
                bars@,
                spikes@,
                pl,
                cd,
                i as int,
            ),
            last_high matches Some(p) ==> p < i,
            last_low matches Some(p) ==> p < i,
            last_bull matches Some(p) ==> p < i,
            last_bear matches Some(p) ==> p < i,
            forall|k: int|
                0 <= k < i ==> (#[trigger] out@[k])@ == sweeps_at(bars@, spikes@, pl, cd, k),
        decreases n - i,
    {
        let marks: &Vec<PivotMark> = &pivots[i];
        let ghost before = memory_before(bars@, spikes@, pl, cd, i as int);
        proof {
            lemma_marks_at_facts(bars@, pl, pl, i as int);
        }
        let mut k: usize = 0;
        while k < marks.len()
            invariant
                marks@ == marks_at(bars@, pl, pl, i as int),
                i < n,
                n == bars.len(),
                pivot_len > 0,
                pl == pivot_len as int,
                k <= marks.len(),
                forall|j: int|
                    0 <= j < marks.len() ==> (#[trigger] marks@[j]).pivot_index == i - pl,
                (SweepMemory { last_high, last_low, last_bull, last_bear }) == absorb_marks(
                    before,
                    marks@.subrange(0, k as int),
                ),
                last_high matches Some(p) ==> p < i,
                last_low matches Some(p) ==> p < i,
                last_bull matches Some(p) ==> p < i,
                last_bear matches Some(p) ==> p < i,
            decreases marks.len() - k,
        {
            let mark = marks[k];
            match mark.kind {
                PivotKind::High => {
                    last_high = Some(mark.pivot_index);
                },
                PivotKind::Low => {
                    last_low = Some(mark.pivot_index);
                },
            }
            proof {
                assert(marks@.subrange(0, k + 1).drop_last() =~= marks@.subrange(0, k as int));
            }
            k += 1;
        }
        proof {
            assert(marks@.subrange(0, marks.len() as int) =~= marks@);
        }
        let ghost seen = SweepMemory { last_high, last_low, last_bull, last_bear };
        let mut emitted: Vec<SweepMark> = Vec::new();
        if spikes[i] {
            let bull = match last_low {
                Some(p) => key_less(bars[i].low, bars[p].low) && key_greater(bars[i].close, bars[p].low)
                    && match last_bull {
                    None => true,
                    Some(l) => i - l > cooldown,
                },
                None => false,
            };
            let bear = match last_high {
                Some(p) => key_greater(bars[i].high, bars[p].high) && key_less(bars[i].close, bars[p].high)
                    && match last_bear {
                    None => true,
                    Some(l) => i - l > cooldown,
                },
                None => false,
            };
            assert(bull == bull_sweep(bars@, seen, i as int, cd));
            assert(bear == bear_sweep(bars@, seen, i as int, cd));
            if bull {
                emitted.push(SweepMark { side: Side::Bullish, swept_pivot_index: last_low.unwrap() });
                last_bull = Some(i);
            }
            if bear {
                emitted.push(SweepMark { side: Side::Bearish, swept_pivot_index: last_high.unwrap() });
                last_bear = Some(i);
            }
        }
        proof {
            assert(emitted@ =~= sweeps_at(bars@, spikes@, pl, cd, i as int));
        }
        out.push(emitted);
        i += 1;
    }
    out
}

/// Some sweep in `marks` is on `side`.
pub open spec fn has_side(marks: Seq<SweepMark>, side: Side) -> bool {
    exists|k: int| 0 <= k < marks.len() && (#[trigger] marks[k]).side == side
}

/// The remembered pivots are swing points of their kind, confirmed no later
/// than bar `limit`.
pub open spec fn remembers_confirmed(bars: Seq<BarKeys>, pivot_len: int, m: SweepMemory, limit: int) -> bool {
    &&& (m.last_high matches Some(p) ==> p + pivot_len <= limit && pivot_len <= p && is_pivot_high(
        bars,
        p as int,
        pivot_len,
        pivot_len,
    ))
    &&& (m.last_low matches Some(p) ==> p + pivot_len <= limit && pivot_len <= p && is_pivot_low(
        bars,
        p as int,
        pivot_len,
        pivot_len,
    ))
}

proof fn lemma_absorb_keeps_sweeps(m: SweepMemory, marks: Seq<PivotMark>)
    ensures
        absorb_marks(m, marks).last_bull == m.last_bull,
        absorb_marks(m, marks).last_bear == m.last_bear,
    decreases marks.len(),
{
    if marks.len() > 0 {
        lemma_absorb_keeps_sweeps(m, marks.drop_last());
    }
}

proof fn lemma_absorb_confirmed(
    bars: Seq<BarKeys>,
    pivot_len: int,
    m: SweepMemory,
    marks: Seq<PivotMark>,
    limit: int,
)
    requires
        remembers_confirmed(bars, pivot_len, m, limit),
        forall|k: int|
            0 <= k < marks.len() ==> {
                let mk = #[trigger] marks[k];
                &&& mk.pivot_index + pivot_len <= limit
                &&& pivot_len <= mk.pivot_index
                &&& (mk.kind == PivotKind::High ==> is_pivot_high(
                    bars,
                    mk.pivot_index as int,
                    pivot_len,
                    pivot_len,
                ))
                &&& (mk.kind == PivotKind::Low ==> is_pivot_low(
                    bars,
                    mk.pivot_index as int,
                    pivot_len,
                    pivot_len,
                ))
            },
    ensures
        remembers_confirmed(bars, pivot_len, absorb_marks(m, marks), limit),
    decreases marks.len(),
{
    if marks.len() > 0 {
        let rest = marks.drop_last();
        assert forall|k: int| 0 <= k < rest.len() implies {
            let mk = #[trigger] rest[k];
            &&& mk.pivot_index + pivot_len <= limit
            &&& pivot_len <= mk.pivot_index
            &&& (mk.kind == PivotKind::High ==> is_pivot_high(bars, mk.pivot_index as int, pivot_len, pivot_len))
            &&& (mk.kind == PivotKind::Low ==> is_pivot_low(bars, mk.pivot_index as int, pivot_len, pivot_len))
        } by {
            assert(rest[k] == marks[k]);
        }
        lemma_absorb_confirmed(bars, pivot_len, m, rest, limit);
        assert(marks.last() == marks[marks.len() - 1]);
    }
}

proof fn lemma_memory_confirmed(bars: Seq<BarKeys>, spikes: Seq<bool>, pivot_len: int, cooldown: int, j: int)
    requires
        0 < pivot_len,
        0 <= j <= bars.len(),
        bars.len() <= usize::MAX,
    ensures
        remembers_confirmed(bars, pivot_len, memory_before(bars, spikes, pivot_len, cooldown, j), j),
        j < bars.len() ==> remembers_confirmed(bars, pivot_len, seen_at(bars, spikes, pivot_len, cooldown, j), j),
    decreases j,
{
    if j > 0 {
        lemma_memory_confirmed(bars, spikes, pivot_len, cooldown, j - 1);
        lemma_marks_at_facts(bars, pivot_len, pivot_len, j - 1);
        lemma_absorb_confirmed(
            bars,
            pivot_len,
            memory_before(bars, spikes, pivot_len, cooldown, j - 1),
            marks_at(bars, pivot_len, pivot_len, j - 1),
            j,
        );
    }
    if j < bars.len() {
        lemma_marks_at_facts(bars, pivot_len, pivot_len, j);
        lemma_absorb_confirmed(
            bars,
            pivot_len,
            memory_before(bars, spikes, pivot_len, cooldown, j),
            marks_at(bars, pivot_len, pivot_len, j),
            j,
        );
    }
}

/// `last` is a bar from `lo` up to (not including) `hi`.
spec fn within(last: Option<usize>, lo: int, hi: int) -> bool {
    match last {
        Some(l) => lo <= l < hi,
        None => false,
    }
}

proof fn lemma_latest_sweep_remembered(
    bars: Seq<BarKeys>,
    spikes: Seq<bool>,
    pivot_len: int,
    cooldown: int,
    i: int,
    j: int,
)
    requires
        0 <= i < j <= bars.len(),
        bars.len() <= usize::MAX,
    ensures
        bull_at(bars, spikes, pivot_len, cooldown, i) ==> (within(memory_before(
            bars,
            spikes,
            pivot_len,
            cooldown,
            j,
        ).last_bull, i, j)),
        bear_at(bars, spikes, pivot_len, cooldown, i) ==> (within(memory_before(
            bars,
            spikes,
            pivot_len,
            cooldown,
            j,
        ).last_bear, i, j)),
    decreases j - i,
{
    let prev = memory_before(bars, spikes, pivot_len, cooldown, j - 1);
    assert(memory_before(bars, spikes, pivot_len, cooldown, j) == next_memory(
        bars,
        spikes,
        pivot_len,
        cooldown,
        prev,
        j - 1,
    ));
    if j > i + 1 {
        lemma_latest_sweep_remembered(bars, spikes, pivot_len, cooldown, i, j - 1);
        lemma_absorb_keeps_sweeps(prev, marks_at(bars, pivot_len, pivot_len, j - 1));
    } else {
        assert(seen_at(bars, spikes, pivot_len, cooldown, i) == absorb_marks(
            prev,
            marks_at(bars, pivot_len, pivot_len, i),
        ));
    }
}

proof fn lemma_has_side_iff(bars: Seq<BarKeys>, spikes: Seq<bool>, pivot_len: int, cooldown: int, i: int)
    ensures
        has_side(sweeps_at(bars, spikes, pivot_len, cooldown, i), Side::Bullish) == bull_at(
            bars,
            spikes,
            pivot_len,
            cooldown,
            i,
        ),
        has_side(sweeps_at(bars, spikes, pivot_len, cooldown, i), Side::Bearish) == bear_at(
            bars,
            spikes,
            pivot_len,
            cooldown,
            i,
        ),
{
    let s = sweeps_at(bars, spikes, pivot_len, cooldown, i);
    if bull_at(bars, spikes, pivot_len, cooldown, i) {
        assert(s[0].side == Side::Bullish);
    }
    if bear_at(bars, spikes, pivot_len, cooldown, i) {
        assert(s[s.len() - 1].side == Side::Bearish);
    }
}

/// Two sweeps on the same side are always more than `cooldown` bars apart.
pub proof fn law_sweep_cooldown(
    bars: Seq<BarKeys>,
    spikes: Seq<bool>,
    pivot_len: int,
    cooldown: int,
    i: int,
    j: int,
)
    requires
        0 <= i < j < bars.len(),
        bars.len() <= usize::MAX,
    ensures
        has_side(sweeps_at(bars, spikes, pivot_len, cooldown, i), Side::Bullish) && has_side(
            sweeps_at(bars, spikes, pivot_len, cooldown, j),
            Side::Bullish,
        ) ==> j - i > cooldown,
        has_side(sweeps_at(bars, spikes, pivot_len, cooldown, i), Side::Bearish) && has_side(
            sweeps_at(bars, spikes, pivot_len, cooldown, j),
            Side::Bearish,
        ) ==> j - i > cooldown,
{
    lemma_has_side_iff(bars, spikes, pivot_len, cooldown, i);
    lemma_has_side_iff(bars, spikes, pivot_len, cooldown, j);
    lemma_latest_sweep_remembered(bars, spikes, pivot_len, cooldown, i, j);
    lemma_absorb_keeps_sweeps(
        memory_before(bars, spikes, pivot_len, cooldown, j),
        marks_at(bars, pivot_len, pivot_len, j),
    );
}

/// A bullish sweep at bar `i` takes the latest swing low confirmed no later
/// than bar `i`: the bar's low is below that pivot's low and its close above
/// it. A bearish sweep mirrors this with the latest swing high.
pub proof fn law_sweep_takes_confirmed_pivot(
    bars: Seq<BarKeys>,
    spikes: Seq<bool>,
    pivot_len: int,
    cooldown: int,
    i: int,
    k: int,
)
    requires
        0 < pivot_len,
        0 <= i < bars.len(),
        bars.len() <= usize::MAX,
        0 <= k < sweeps_at(bars, spikes, pivot_len, cooldown, i).len(),
    ensures
        ({
            let s = sweeps_at(bars, spikes, pivot_len, cooldown, i)[k];
            let p = s.swept_pivot_index as int;
            &&& p + pivot_len <= i
            &&& s.side == Side::Bullish ==> {
                &&& latest_low(bars, pivot_len, i, p)
                &&& key_lt(bars[i].low, bars[p].low)
                &&& key_gt(bars[i].close, bars[p].low)
            }
            &&& s.side == Side::Bearish ==> {
                &&& latest_high(bars, pivot_len, i, p)
                &&& key_gt(bars[i].high, bars[p].high)
                &&& key_lt(bars[i].close, bars[p].high)
            }
        }),
{
    lemma_memory_confirmed(bars, spikes, pivot_len, cooldown, i);
    lemma_seen_latest(bars, spikes, pivot_len, cooldown, i);
}

/// `p` is the latest swing low confirmed by bar `i`: a pivot low confirmed
/// no later than `i`, with no pivot low confirmed after it up to `i`.
pub open spec fn latest_low(bars: Seq<BarKeys>, pivot_len: int, i: int, p: int) -> bool {
    &&& pivot_len <= p
    &&& p + pivot_len <= i
    &&& is_pivot_low(bars, p, pivot_len, pivot_len)
    &&& forall|q: int|
        p < q && q + pivot_len <= i ==> !#[trigger] is_pivot_low(bars, q, pivot_len, pivot_len)
}

/// `p` is the latest swing high confirmed by bar `i`.
pub open spec fn latest_high(bars: Seq<BarKeys>, pivot_len: int, i: int, p: int) -> bool {
    &&& pivot_len <= p
    &&& p + pivot_len <= i
    &&& is_pivot_high(bars, p, pivot_len, pivot_len)
    &&& forall|q: int|
        p < q && q + pivot_len <= i ==> !#[trigger] is_pivot_high(bars, q, pivot_len, pivot_len)
}

proof fn lemma_absorb_marks_at(bars: Seq<BarKeys>, pivot_len: int, m: SweepMemory, c: int)
    requires
        0 < pivot_len,
        bars.len() <= usize::MAX,
    ensures
        absorb_marks(m, marks_at(bars, pivot_len, pivot_len, c)).last_low == (if pivot_len + pivot_len
            <= c < bars.len() && is_pivot_low(bars, c - pivot_len, pivot_len, pivot_len) {
            Some((c - pivot_len) as usize)
        } else {
            m.last_low
        }),
        absorb_marks(m, marks_at(bars, pivot_len, pivot_len, c)).last_high == (if pivot_len
            + pivot_len <= c < bars.len() && is_pivot_high(bars, c - pivot_len, pivot_len, pivot_len) {
            Some((c - pivot_len) as usize)
        } else {
            m.last_high
        }),
        absorb_marks(m, marks_at(bars, pivot_len, pivot_len, c)).last_bull == m.last_bull,
        absorb_marks(m, marks_at(bars, pivot_len, pivot_len, c)).last_bear == m.last_bear,
{
    let s = marks_at(bars, pivot_len, pivot_len, c);
    lemma_absorb_keeps_sweeps(m, s);
    let empty = Seq::<PivotMark>::empty();
    assert(absorb_marks(m, empty) == m);
    if pivot_len + pivot_len <= c < bars.len() {
        let center = c - pivot_len;
        let hi = is_pivot_high(bars, center, pivot_len, pivot_len);
        let lo = is_pivot_low(bars, center, pivot_len, pivot_len);
        let hm = PivotMark { pivot_index: center as usize, confirmed_index: c as usize, kind: PivotKind::High };
        let lm = PivotMark { pivot_index: center as usize, confirmed_index: c as usize, kind: PivotKind::Low };
        let hp = if hi { seq![hm] } else { empty };
        let lp = if lo { seq![lm] } else { empty };
        assert(s == hp + lp);
        if hi {
            assert(hp.drop_last() =~= empty);
            assert(absorb_marks(m, hp).last_high == Some(center as usize));
            assert(absorb_marks(m, hp).last_low == m.last_low);
        } else {
            assert(hp =~= empty);
        }
        if lo {
            assert(s.drop_last() =~= hp);
            assert(s.last() == lm);
        } else {
            assert(s =~= hp);
        }
    } else {
        assert(s =~= empty);
    }
}

proof fn lemma_memory_unfold(bars: Seq<BarKeys>, spikes: Seq<bool>, pivot_len: int, cooldown: int, i: int)
    requires
        0 < i,
    ensures
        memory_before(bars, spikes, pivot_len, cooldown, i).last_low == seen_at(
            bars,
            spikes,
            pivot_len,
            cooldown,
            i - 1,
        ).last_low,
        memory_before(bars, spikes, pivot_len, cooldown, i).last_high == seen_at(
            bars,
            spikes,
            pivot_len,
            cooldown,
            i - 1,
        ).last_high,
        memory_before(bars, spikes, pivot_len, cooldown, i).last_bull == (if bull_at(
            bars,
            spikes,
            pivot_len,
            cooldown,
            i - 1,
        ) {
            Some((i - 1) as usize)
        } else {
            seen_at(bars, spikes, pivot_len, cooldown, i - 1).last_bull
        }),
        memory_before(bars, spikes, pivot_len, cooldown, i).last_bear == (if bear_at(
            bars,
            spikes,
            pivot_len,
            cooldown,
            i - 1,
        ) {
            Some((i - 1) as usize)
        } else {
            seen_at(bars, spikes, pivot_len, cooldown, i - 1).last_bear
        }),
{
    assert(memory_before(bars, spikes, pivot_len, cooldown, i) == next_memory(
        bars,
        spikes,
        pivot_len,
        cooldown,
        memory_before(bars, spikes, pivot_len, cooldown, i - 1),
        i - 1,
    ));
}

proof fn lemma_seen_latest(bars: Seq<BarKeys>, spikes: Seq<bool>, pivot_len: int, cooldown: int, i: int)
    requires
        0 < pivot_len,
        0 <= i < bars.len(),
        bars.len() <= usize::MAX,
    ensures
        match seen_at(bars, spikes, pivot_len, cooldown, i).last_low {
            Some(p) => latest_low(bars, pivot_len, i, p as int),
            None => forall|q: int|
                pivot_len <= q && q + pivot_len <= i ==> !#[trigger] is_pivot_low(bars, q, pivot_len, pivot_len),
        },
        match seen_at(bars, spikes, pivot_len, cooldown, i).last_high {
            Some(p) => latest_high(bars, pivot_len, i, p as int),
            None => forall|q: int|
                pivot_len <= q && q + pivot_len <= i ==> !#[trigger] is_pivot_high(bars, q, pivot_len, pivot_len),
        },
    decreases i,
{
    let before = memory_before(bars, spikes, pivot_len, cooldown, i);
    lemma_absorb_marks_at(bars, pivot_len, before, i);
    if i > 0 {
        lemma_seen_latest(bars, spikes, pivot_len, cooldown, i - 1);
        lemma_memory_unfold(bars, spikes, pivot_len, cooldown, i);
    }
}

proof fn lemma_latest_low_unique(bars: Seq<BarKeys>, pivot_len: int, i: int, p: int, r: int)
    requires
        latest_low(bars, pivot_len, i, p),
        latest_low(bars, pivot_len, i, r),
    ensures
        p == r,
{
    if p < r {
        assert(!is_pivot_low(bars, r, pivot_len, pivot_len));
    } else if r < p {
        assert(!is_pivot_low(bars, p, pivot_len, pivot_len));
    }
}

proof fn lemma_latest_high_unique(bars: Seq<BarKeys>, pivot_len: int, i: int, p: int, r: int)
    requires
        latest_high(bars, pivot_len, i, p),
        latest_high(bars, pivot_len, i, r),
    ensures
        p == r,
{
    if p < r {
        assert(!is_pivot_high(bars, r, pivot_len, pivot_len));
    } else if r < p {
        assert(!is_pivot_high(bars, p, pivot_len, pivot_len));
    }
}

/// The remembered bullish sweep is the latest one before bar `i`.
proof fn lemma_memory_latest_bull(bars: Seq<BarKeys>, spikes: Seq<bool>, pivot_len: int, cooldown: int, i: int)
    requires
        0 <= i <= bars.len(),
        bars.len() <= usize::MAX,
        0 < pivot_len,
    ensures
        match memory_before(bars, spikes, pivot_len, cooldown, i).last_bull {
            Some(l) => l < i && bull_at(bars, spikes, pivot_len, cooldown, l as int) && forall|j: int|
                l < j < i ==> !#[trigger] bull_at(bars, spikes, pivot_len, cooldown, j),
            None => forall|j: int| 0 <= j < i ==> !#[trigger] bull_at(bars, spikes, pivot_len, cooldown, j),
        },
    decreases i,
{
    if i > 0 {
        let prev = memory_before(bars, spikes, pivot_len, cooldown, i - 1);
        lemma_memory_latest_bull(bars, spikes, pivot_len, cooldown, i - 1);
        lemma_memory_unfold(bars, spikes, pivot_len, cooldown, i);
        lemma_absorb_marks_at(bars, pivot_len, prev, i - 1);
        let fired = bull_at(bars, spikes, pivot_len, cooldown, i - 1);
        if !fired {
            assert(memory_before(bars, spikes, pivot_len, cooldown, i).last_bull == prev.last_bull);
        }
    }
}

/// The remembered bearish sweep is the latest one before bar `i`.
proof fn lemma_memory_latest_bear(bars: Seq<BarKeys>, spikes: Seq<bool>, pivot_len: int, cooldown: int, i: int)
    requires
        0 <= i <= bars.len(),
        bars.len() <= usize::MAX,
        0 < pivot_len,
    ensures
        match memory_before(bars, spikes, pivot_len, cooldown, i).last_bear {
            Some(l) => l < i && bear_at(bars, spikes, pivot_len, cooldown, l as int) && forall|j: int|
                l < j < i ==> !#[trigger] bear_at(bars, spikes, pivot_len, cooldown, j),
            None => forall|j: int| 0 <= j < i ==> !#[trigger] bear_at(bars, spikes, pivot_len, cooldown, j),
        },
    decreases i,
{
    if i > 0 {
        let prev = memory_before(bars, spikes, pivot_len, cooldown, i - 1);
        lemma_memory_latest_bear(bars, spikes, pivot_len, cooldown, i - 1);
        lemma_memory_unfold(bars, spikes, pivot_len, cooldown, i);
        lemma_absorb_marks_at(bars, pivot_len, prev, i - 1);
        let fired = bear_at(bars, spikes, pivot_len, cooldown, i - 1);
        if !fired {
            assert(memory_before(bars, spikes, pivot_len, cooldown, i).last_bear == prev.last_bear);
        }
    }
}

/// A bar reports a bullish sweep exactly when it has a volume spike, its low
/// goes below the latest confirmed swing low and its close ends above that
/// low, and there was no bullish sweep in the `cooldown` bars before it.
/// The bearish side mirrors this with the latest swing high, and each side's
/// cooldown looks only at that side's own sweeps.
pub proof fn law_sweep_fires_exactly_when(
    bars: Seq<BarKeys>,
    spikes: Seq<bool>,
    pivot_len: int,
    cooldown: int,
    i: int,
)
    requires
        0 < pivot_len,
        0 <= cooldown,
        0 <= i < bars.len(),
        bars.len() <= usize::MAX,
    ensures
        has_side(sweeps_at(bars, spikes, pivot_len, cooldown, i), Side::Bullish) <==> {
            &&& spikes[i]
            &&& exists|p: int|
                #[trigger] latest_low(bars, pivot_len, i, p) && key_lt(bars[i].low, bars[p].low) && key_gt(
                    bars[i].close,
                    bars[p].low,
                )
            &&& forall|j: int|
                0 <= j < i && i - cooldown <= j ==> !has_side(
                    #[trigger] sweeps_at(bars, spikes, pivot_len, cooldown, j),
                    Side::Bullish,
                )
        },
        has_side(sweeps_at(bars, spikes, pivot_len, cooldown, i), Side::Bearish) <==> {
            &&& spikes[i]
            &&& exists|p: int|
                #[trigger] latest_high(bars, pivot_len, i, p) && key_gt(bars[i].high, bars[p].high) && key_lt(
                    bars[i].close,
                    bars[p].high,
                )
            &&& forall|j: int|
                0 <= j < i && i - cooldown <= j ==> !has_side(
                    #[trigger] sweeps_at(bars, spikes, pivot_len, cooldown, j),
                    Side::Bearish,
                )
        },
{
    let seen = seen_at(bars, spikes, pivot_len, cooldown, i);
    let before = memory_before(bars, spikes, pivot_len, cooldown, i);
    lemma_has_side_iff(bars, spikes, pivot_len, cooldown, i);
    lemma_seen_latest(bars, spikes, pivot_len, cooldown, i);
    lemma_memory_latest_bull(bars, spikes, pivot_len, cooldown, i);
    lemma_memory_latest_bear(bars, spikes, pivot_len, cooldown, i);
    lemma_absorb_marks_at(bars, pivot_len, before, i);
    assert forall|j: int| 0 <= j < i implies (has_side(
        #[trigger] sweeps_at(bars, spikes, pivot_len, cooldown, j),
        Side::Bullish,
    ) == bull_at(bars, spikes, pivot_len, cooldown, j) && has_side(
        sweeps_at(bars, spikes, pivot_len, cooldown, j),
        Side::Bearish,
    ) == bear_at(bars, spikes, pivot_len, cooldown, j)) by {
        lemma_has_side_iff(bars, spikes, pivot_len, cooldown, j);
    }
    // the bullish side
    let bull_window = forall|j: int|
        0 <= j < i && i - cooldown <= j ==> !has_side(
            #[trigger] sweeps_at(bars, spikes, pivot_len, cooldown, j),
            Side::Bullish,
        );
    assert(cooled(seen.last_bull, i, cooldown) == bull_window) by {
        match seen.last_bull {
            Some(l) => {
                if l >= i - cooldown {
                    assert(!has_side(sweeps_at(bars, spikes, pivot_len, cooldown, l as int), Side::Bullish)
                        ==> !bull_window);
                }
            },
            None => {},
        }
    }
    if exists|p: int|
        #[trigger] latest_low(bars, pivot_len, i, p) && key_lt(bars[i].low, bars[p].low) && key_gt(
            bars[i].close,
            bars[p].low,
        ) {
        let p = choose|p: int|
            #[trigger] latest_low(bars, pivot_len, i, p) && key_lt(bars[i].low, bars[p].low) && key_gt(
                bars[i].close,
                bars[p].low,
            );
        match seen.last_low {
            Some(r) => {
                lemma_latest_low_unique(bars, pivot_len, i, p, r as int);
            },
            None => {
                assert(!is_pivot_low(bars, p, pivot_len, pivot_len));
            },
        }
    }
    if bull_at(bars, spikes, pivot_len, cooldown, i) {
        let r = seen.last_low->0 as int;
        assert(latest_low(bars, pivot_len, i, r));
    }
    // the bearish side
    let bear_window = forall|j: int|
        0 <= j < i && i - cooldown <= j ==> !has_side(
            #[trigger] sweeps_at(bars, spikes, pivot_len, cooldown, j),
            Side::Bearish,
        );
    assert(cooled(seen.last_bear, i, cooldown) == bear_window) by {
        match seen.last_bear {
            Some(l) => {
                if l >= i - cooldown {
                    assert(!has_side(sweeps_at(bars, spikes, pivot_len, cooldown, l as int), Side::Bearish)
                        ==> !bear_window);
                }
            },
            None => {},
        }
    }
    if exists|p: int|
        #[trigger] latest_high(bars, pivot_len, i, p) && key_gt(bars[i].high, bars[p].high) && key_lt(
            bars[i].close,
            bars[p].high,
        ) {
        let p = choose|p: int|
            #[trigger] latest_high(bars, pivot_len, i, p) && key_gt(bars[i].high, bars[p].high) && key_lt(
                bars[i].close,
                bars[p].high,
            );
        match seen.last_high {
            Some(r) => {
                lemma_latest_high_unique(bars, pivot_len, i, p, r as int);
            },
            None => {
                assert(!is_pivot_high(bars, p, pivot_len, pivot_len));
            },
        }
    }
    if bear_at(bars, spikes, pivot_len, cooldown, i) {
        let r = seen.last_high->0 as int;
        assert(latest_high(bars, pivot_len, i, r));
    }
}

} // verus!
