use vstd::prelude::*;

verus! {

/// How many values in a row, ending at position `i`, are present.
pub open spec fn present_run(present: Seq<bool>, i: int) -> nat
    decreases i + 1,
{
    if i < 0 {
        0
    } else if !present[i] {
        0
    } else {
        present_run(present, i - 1) + 1
    }
}

/// What an exponential average does with one input value.
#[derive(Clone, Copy, Debug, PartialEq, Eq, Structural)]
pub enum EmaPhase {
    /// The value is missing: the average and its seed window start over.
    Reset,
    /// The value joins the seed window; no average yet.
    Warmup,
    /// The value completes the seed window: the average starts as the
    /// window's mean.
    Seed,
    /// The average moves toward the value.
    Update,
}

/// The phase of the value at `i`, for an average over `period` values that
/// seeds itself with the mean of the first `period` values of every unbroken
/// run.
pub open spec fn ema_phase_at(present: Seq<bool>, period: int, i: int) -> EmaPhase {
    if !present[i] {
        EmaPhase::Reset
    } else if present_run(present, i) < period {
        EmaPhase::Warmup
    } else if present_run(present, i) == period {
        EmaPhase::Seed
    } else {
        EmaPhase::Update
    }
}

/// For every value, what an exponential average over `period` values does
/// with it, given which values are present.
pub fn ema_phases(present: &Vec<bool>, period: usize) -> (out: Vec<EmaPhase>)
    requires
        period > 0,
    ensures
        out.len() == present.len(),
        forall|i: int| 0 <= i < present.len() ==> #[trigger] out@[i] == ema_phase_at(present@, period as int, i),
{
    let n = present.len();
    let mut out: Vec<EmaPhase> = Vec::new();
    let mut seeded = false;
    let mut count: usize = 0;
    let mut i: usize = 0;
    while i < n
        invariant
            n == present.len(),
            period > 0,
            i <= n,
            out.len() == i,
            count <= period,
            seeded == (present_run(present@, i - 1) >= period),
            !seeded ==> count == present_run(present@, i - 1),
            forall|k: int| 0 <= k < i ==> #[trigger] out@[k] == ema_phase_at(present@, period as int, k),
        decreases n - i,
    {
        let phase = if !present[i] {
            seeded = false;
            count = 0;
            EmaPhase::Reset
        } else if !seeded {
            count += 1;
            if count == period {
                seeded = true;
                EmaPhase::Seed
            } else {
                EmaPhase::Warmup
            }
        } else {
            EmaPhase::Update
        };
        out.push(phase);
        i += 1;
    }
    out
}

/// The average exists before it is updated: a value that updates the
/// average follows one that seeded or updated it.
pub proof fn law_ema_updates_follow_seed(present: Seq<bool>, period: int, i: int)
    requires
        period > 0,
        0 <= i < present.len(),
        ema_phase_at(present, period, i) == EmaPhase::Update,
    ensures
        i > 0,
        ema_phase_at(present, period, i - 1) == EmaPhase::Seed || ema_phase_at(present, period, i - 1)
            == EmaPhase::Update,
{
    assert(present_run(present, i) == present_run(present, i - 1) + 1);
}

/// The average seeds on the `period`-th value of an unbroken run: exactly
/// when the `period` values ending there are all present and the value
/// before them (if any) is missing.
pub proof fn law_ema_seeds_on_period_th_value(present: Seq<bool>, period: int, i: int)
    requires
        period > 0,
        0 <= i < present.len(),
    ensures
        (ema_phase_at(present, period, i) == EmaPhase::Seed) == (i + 1 >= period && (forall|j: int|
            i + 1 - period <= j <= i ==> #[trigger] present[j]) && (i - period < 0 || !present[i - period])),
{
    lemma_run_covers_window(present, i, period);
    lemma_run_covers_window(present, i, period + 1);
    if i + 1 >= period && (forall|j: int| i + 1 - period <= j <= i ==> #[trigger] present[j]) && i - period
        >= 0 && present[i - period] {
        assert forall|j: int| i + 1 - (period + 1) <= j <= i implies #[trigger] present[j] by {
            if j > i - period {
                assert(i + 1 - period <= j <= i);
            }
        }
    }
}

/// A run of at least `k` present values ends at `i` exactly when the `k`
/// positions up to `i` all exist and are present.
pub proof fn lemma_run_covers_window(present: Seq<bool>, i: int, k: int)
    requires
        0 <= k,
        -1 <= i < present.len(),
    ensures
        present_run(present, i) >= k <==> (i + 1 >= k && forall|j: int| i + 1 - k <= j <= i ==> #[trigger] present[j]),
    decreases k,
{
    if k > 0 && i >= 0 {
        lemma_run_covers_window(present, i - 1, k - 1);
        if present_run(present, i) >= k {
            assert forall|j: int| i + 1 - k <= j <= i implies #[trigger] present[j] by {
                if j < i {
                    assert(i - 1 + 1 - (k - 1) <= j <= i - 1);
                }
            }
        }
        if i + 1 >= k && forall|j: int| i + 1 - k <= j <= i ==> #[trigger] present[j] {
            assert(present[i]);
            assert forall|j: int| i - 1 + 1 - (k - 1) <= j <= i - 1 implies #[trigger] present[j] by {
                assert(i + 1 - k <= j <= i);
            }
        }
    }
}

/// `i` ends a full window of `period` positions that are all present.
pub open spec fn window_complete(present: Seq<bool>, period: int, i: int) -> bool {
    &&& i + 1 >= period
    &&& forall|j: int| i + 1 - period <= j <= i ==> #[trigger] present[j]
}

/// For every position, whether the window of `period` positions ending there
/// is full and holds only present (finite) values: the moving average is
/// defined exactly there.
pub fn complete_windows(present: &Vec<bool>, period: usize) -> (out: Vec<bool>)
    requires
        period > 0,
    ensures
        out.len() == present.len(),
        forall|i: int|
            0 <= i < present.len() ==> #[trigger] out@[i] == window_complete(present@, period as int, i),
{
    let n = present.len();
    let mut out: Vec<bool> = Vec::new();
    let mut run: usize = 0;
    let mut i: usize = 0;
    while i < n
        invariant
            n == present.len(),
            period > 0,
            i <= n,
            out.len() == i,
            run <= period,
            run == (if present_run(present@, i - 1) >= period {
                period as int
            } else {
                present_run(present@, i - 1) as int
            }),
            forall|k: int| 0 <= k < i ==> #[trigger] out@[k] == window_complete(present@, period as int, k),
        decreases n - i,
    {
        if present[i] {
            if run < period {
                run += 1;
            }
        } else {
            run = 0;
        }
        proof {
            lemma_run_covers_window(present@, i as int, period as int);
        }
        out.push(run == period);
        i += 1;
    }
    out
}

/// The series shifted back by `shift` positions, where the first `shift`
/// positions keep their own value.
pub fn shifted_with_current_fallback<T: Copy>(values: &Vec<T>, shift: usize) -> (out: Vec<T>)
    ensures
        out.len() == values.len(),
        forall|i: int|
            0 <= i < values.len() ==> #[trigger] out@[i] == (if i >= shift {
                values@[i - shift]
            } else {
                values@[i]
            }),
{
    let n = values.len();
    let mut out: Vec<T> = Vec::new();
    let mut i: usize = 0;
    while i < n
        invariant
            n == values.len(),
            i <= n,
            out.len() == i,
            forall|k: int|
                0 <= k < i ==> #[trigger] out@[k] == (if k >= shift {
                    values@[k - shift]
                } else {
                    values@[k]
                }),
        decreases n - i,
    {
        let v = if i >= shift {
            values[i - shift]
        } else {
            values[i]
        };
        out.push(v);
        i += 1;
    }
    out
}

} // verus!
