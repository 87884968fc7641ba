use vstd::prelude::*;

verus! {

/// `a` ranks strictly before `b`: above it when looking for the highest,
/// below it when looking for the lowest.
pub open spec fn beats(a: i64, b: i64, highest: bool) -> bool {
    if highest {
        a > b
    } else {
        a < b
    }
}

/// `r` is the first position in `lo..hi` holding the highest (or lowest)
/// present key, or `None` when every key there is missing.
pub open spec fn is_first_extreme(keys: Seq<Option<i64>>, lo: int, hi: int, highest: bool, r: Option<usize>) -> bool {
    match r {
        None => forall|j: int| lo <= j < hi ==> (#[trigger] keys[j]) is None,
        Some(k) => {
            &&& lo <= k < hi
            &&& keys[k as int] is Some
            &&& forall|j: int|
                lo <= j < hi && (#[trigger] keys[j]) is Some ==> !beats(keys[j]->0, keys[k as int]->0, highest)
            &&& forall|j: int|
                lo <= j < k && (#[trigger] keys[j]) is Some ==> beats(keys[k as int]->0, keys[j]->0, highest)
        },
    }
}

/// A window has exactly one first extreme position (or none), so the
/// functions below are determined by their keys.
pub proof fn law_first_extreme_unique(
    keys: Seq<Option<i64>>,
    lo: int,
    hi: int,
    highest: bool,
    r: Option<usize>,
    q: Option<usize>,
)
    requires
        is_first_extreme(keys, lo, hi, highest, r),
        is_first_extreme(keys, lo, hi, highest, q),
    ensures
        r == q,
{
    match (r, q) {
        (Some(a), Some(b)) => {
            if a < b {
                assert(keys[a as int] is Some);
            } else if b < a {
                assert(keys[b as int] is Some);
            }
        },
        (Some(a), None) => {
            assert(keys[a as int] is Some);
        },
        (None, Some(b)) => {
            assert(keys[b as int] is Some);
        },
        (None, None) => {},
    }
}

/// The first position in `lo..hi` of the highest (`highest`) or lowest
/// present key; `None` when all keys in the window are missing.
///
/// Folding a window of prices with `max` from minus infinity (or `min` from
/// plus infinity) skips missing prices; the fold's result is the price at
/// this position, or the starting infinity when there is none.
pub fn window_extreme(keys: &Vec<Option<i64>>, lo: usize, hi: usize, highest: bool) -> (r: Option<usize>)
    requires
        lo <= hi <= keys.len(),
    ensures
        is_first_extreme(keys@, lo as int, hi as int, highest, r),
{
    let mut best: Option<usize> = None;
    let mut j = lo;
    while j < hi
        invariant
            lo <= j <= hi,
            hi <= keys.len(),
            is_first_extreme(keys@, lo as int, j as int, highest, best),
        decreases hi - j,
    {
        match keys[j] {
            Some(v) => {
                let take = match best {
                    None => true,
                    Some(b) => match keys[b] {
                        Some(w) => if highest {
                            v > w
                        } else {
                            v < w
                        },
                        None => true,
                    },
                };
                if take {
                    best = Some(j);
                }
            },
            None => {},
        }
        j += 1;
    }
    best
}

/// For every bar `i`, the extreme over the trailing window of up to `period`
/// bars ending at `i` (fewer at the start of the series).
pub fn trailing_extremes(keys: &Vec<Option<i64>>, period: usize, highest: bool) -> (out: Vec<Option<usize>>)
    requires
        period > 0,
    ensures
        out.len() == keys.len(),
        forall|i: int|
            0 <= i < keys.len() ==> is_first_extreme(
                keys@,
                if i + 1 >= period {
                    i + 1 - period
                } else {
                    0
                },
                i + 1,
                highest,
                #[trigger] out@[i],
            ),
{
    let n = keys.len();
    let mut out: Vec<Option<usize>> = Vec::new();
    let mut i: usize = 0;
    while i < n
        invariant
            n == keys.len(),
            period > 0,
            i <= n,
            out.len() == i,
            forall|k: int|
                0 <= k < i ==> is_first_extreme(
                    keys@,
                    if k + 1 >= period {
                        k + 1 - period
                    } else {
                        0
                    },
                    k + 1,
                    highest,
                    #[trigger] out@[k],
                ),
        decreases n - i,
    {
        let start = if i + 1 >= period {
            i + 1 - period
        } else {
            0
        };
        let r = window_extreme(keys, start, i + 1, highest);
        out.push(r);
        i += 1;
    }
    out
}

/// For every bar `i`, the extreme over the up to `lookback` bars before it
/// (bar `i` itself excluded; nothing at the first bar).
pub fn prior_extremes(keys: &Vec<Option<i64>>, lookback: usize, highest: bool) -> (out: Vec<Option<usize>>)
    ensures
        out.len() == keys.len(),
        forall|i: int|
            0 <= i < keys.len() ==> is_first_extreme(
                keys@,
                if i >= lookback {
                    i - lookback
                } else {
                    0
                },
                i,
                highest,
                #[trigger] out@[i],
            ),
{
    let n = keys.len();
    let mut out: Vec<Option<usize>> = Vec::new();
    let mut i: usize = 0;
    while i < n
        invariant
            n == keys.len(),
            i <= n,
            out.len() == i,
            forall|k: int|
                0 <= k < i ==> is_first_extreme(
                    keys@,
                    if k >= lookback {
                        k - lookback
                    } else {
                        0
                    },
                    k,
                    highest,
                    #[trigger] out@[k],
                ),
        decreases n - i,
    {
        let start = i.saturating_sub(lookback);
        let r = window_extreme(keys, start, i, highest);
        out.push(r);
        i += 1;
    }
    out
}

/// `order` lists the positions `lo..hi` once each, by increasing key, and
/// positions with equal keys in position order.
pub open spec fn is_sorted_order(keys: Seq<i64>, lo: int, hi: int, order: Seq<usize>) -> bool {
    &&& order.len() == hi - lo
    &&& forall|a: int| 0 <= a < order.len() ==> lo <= #[trigger] order[a] < hi
    &&& forall|a: int, b: int| 0 <= a < b < order.len() ==> #[trigger] order[a] != #[trigger] order[b]
    &&& forall|a: int, b: int|
        0 <= a < b < order.len() ==> keys[#[trigger] order[a] as int] <= keys[#[trigger] order[b] as int]
    &&& forall|a: int, b: int|
        0 <= a < b < order.len() && keys[#[trigger] order[a] as int] == keys[#[trigger] order[b] as int]
            ==> order[a] < order[b]
}

/// The positions `lo..hi` sorted by their keys, ties kept in position order.
///
/// With total-order keys of a window of prices, the price at sorted place
/// `k` is the `k`-th smallest of the window, as sorting the window itself by
/// `f64::total_cmp` gives it.
pub fn sorted_window(keys: &Vec<i64>, lo: usize, hi: usize) -> (order: Vec<usize>)
    requires
        lo <= hi <= keys.len(),
    ensures
        is_sorted_order(keys@, lo as int, hi as int, order@),
{
    let mut order: Vec<usize> = Vec::new();
    let mut i = lo;
    while i < hi
        invariant
            lo <= i <= hi,
            hi <= keys.len(),
            is_sorted_order(keys@, lo as int, i as int, order@),
        decreases hi - i,
    {
        let key = keys[i];
        let mut p: usize = 0;
        while p < order.len() && keys[order[p]] <= key
            invariant
                i < keys.len(),
                key == keys@[i as int],
                p <= order.len(),
                is_sorted_order(keys@, lo as int, i as int, order@),
                i <= keys.len(),
                forall|q: int| 0 <= q < p ==> keys@[#[trigger] order@[q] as int] <= key,
            decreases order.len() - p,
        {
            p += 1;
        }
        proof {
            if p < order.len() {
                assert(keys@[order@[p as int] as int] > key);
                assert forall|q: int| p <= q < order.len() implies keys@[#[trigger] order@[q] as int] > key by {
                    if q > p {
                        assert(keys@[order@[p as int] as int] <= keys@[order@[q] as int]);
                    }
                }
            }
        }
        let ghost old_order = order@;
        order.insert(p, i);
        proof {
            let n = order@;
            assert(n == old_order.insert(p as int, i));
            old_order.insert_ensures(p as int, i);
            assert forall|a: int| 0 <= a < n.len() implies lo <= #[trigger] n[a] < i + 1 by {
                if a > p {
                    assert(n[a] == old_order[a - 1]);
                }
            }
            assert forall|a: int, b: int| 0 <= a < b < n.len() implies #[trigger] n[a] != #[trigger] n[b] by {
                if a > p {
                    assert(n[a] == old_order[a - 1]);
                }
                if b > p {
                    assert(n[b] == old_order[b - 1]);
                }
            }
            assert forall|a: int, b: int| 0 <= a < b < n.len() implies keys@[#[trigger] n[a] as int] <= keys@[
                #[trigger] n[b] as int] by {
                if a > p {
                    assert(n[a] == old_order[a - 1]);
                }
                if b > p {
                    assert(n[b] == old_order[b - 1]);
                }
            }
            assert forall|a: int, b: int|
                0 <= a < b < n.len() && keys@[#[trigger] n[a] as int] == keys@[#[trigger] n[b] as int] implies n[a]
                < n[b] by {
                if a > p {
                    assert(n[a] == old_order[a - 1]);
                }
                if b > p {
                    assert(n[b] == old_order[b - 1]);
                }
            }
        }
        i += 1;
    }
    order
}

} // verus!
