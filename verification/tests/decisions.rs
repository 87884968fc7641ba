//! Concrete cases of the indicator decisions.

use ta_indicators::baseline::{BandCheck, update_votes, vote_side, vote_total};
use ta_indicators::darvas::{ActiveBreakout, breakout_tracks};
use ta_indicators::keys::{BarKeys, key_greater, key_less, total_order_key};
use ta_indicators::momentum::{MomentumVolFactor, dominant_factor};
use ta_indicators::pivots::{PivotMark, confirmed_pivots};
use ta_indicators::renko::RenkoState;
use ta_indicators::ribbon::{RibbonBar, RibbonTrend, TargetMove};
use ta_indicators::side::{PivotKind, Side, classify_side, crossing};
use ta_indicators::smoothing::{EmaPhase, complete_windows, ema_phases, shifted_with_current_fallback};
use ta_indicators::sweep::{SweepMark, liquidity_sweeps};
use ta_indicators::vwap::anchor_starts;
use ta_indicators::windows::{prior_extremes, sorted_window, trailing_extremes, window_extreme};
use ta_indicators::wyckoff::{WyckoffPhase, WyckoffReading, classify_phase};

fn bar(high: i64, low: i64, close: i64) -> BarKeys {
    BarKeys {
        high: Some(high),
        low: Some(low),
        close: Some(close),
    }
}

#[test]
fn sides_prefer_bullish_and_need_a_condition() {
    assert_eq!(classify_side(true, false), Some(Side::Bullish));
    assert_eq!(classify_side(false, true), Some(Side::Bearish));
    assert_eq!(classify_side(true, true), Some(Side::Bullish));
    assert_eq!(classify_side(false, false), None);
}

#[test]
fn crossings_need_the_previous_bar_on_the_other_side() {
    assert_eq!(crossing(true, false, true, false), Some(Side::Bullish));
    assert_eq!(crossing(false, true, false, true), Some(Side::Bearish));
    assert_eq!(crossing(false, true, true, false), None);
    assert_eq!(crossing(true, true, false, false), None);
    assert_eq!(crossing(false, false, false, false), None);
}

#[test]
fn missing_prices_compare_false() {
    assert!(key_greater(Some(3), Some(2)));
    assert!(!key_greater(Some(2), Some(2)));
    assert!(!key_greater(None, Some(2)));
    assert!(!key_greater(Some(2), None));
    assert!(key_less(Some(1), Some(2)));
    assert!(!key_less(None, None));
}

#[test]
fn pivots_are_strict_extremes_confirmed_right_bars_later() {
    let bars = vec![
        bar(10, 5, 7),
        bar(12, 4, 8),
        bar(11, 6, 9),
        bar(11, 6, 9),
        bar(13, 3, 10),
        bar(9, 4, 8),
    ];
    let pivots = confirmed_pivots(&bars, 1, 1);
    assert_eq!(pivots.len(), bars.len());
    assert!(pivots[0].is_empty());
    assert!(pivots[1].is_empty());
    assert_eq!(
        pivots[2],
        vec![
            PivotMark {
                pivot_index: 1,
                confirmed_index: 2,
                kind: PivotKind::High,
            },
            PivotMark {
                pivot_index: 1,
                confirmed_index: 2,
                kind: PivotKind::Low,
            },
        ]
    );
    // equal highs at bars 2 and 3: neither is a strict pivot high
    assert!(pivots[3].is_empty());
    assert!(pivots[4].is_empty());
    assert_eq!(
        pivots[5],
        vec![
            PivotMark {
                pivot_index: 4,
                confirmed_index: 5,
                kind: PivotKind::High,
            },
            PivotMark {
                pivot_index: 4,
                confirmed_index: 5,
                kind: PivotKind::Low,
            },
        ]
    );
}

#[test]
fn pivots_need_full_windows_and_present_prices() {
    let short = vec![bar(1, 1, 1), bar(5, 0, 2)];
    assert!(confirmed_pivots(&short, 1, 1).iter().all(|marks| marks.is_empty()));
    let mut bars = vec![bar(10, 5, 7), bar(12, 4, 8), bar(11, 6, 9)];
    bars[0].high = None;
    let pivots = confirmed_pivots(&bars, 1, 1);
    assert_eq!(
        pivots[2],
        vec![PivotMark {
            pivot_index: 1,
            confirmed_index: 2,
            kind: PivotKind::Low,
        }]
    );
}

fn sweep_fixture() -> Vec<BarKeys> {
    vec![
        bar(20, 10, 15),
        bar(19, 5, 12),
        bar(21, 9, 16),
        bar(22, 4, 8),
        bar(18, 3, 9),
        bar(19, 2, 7),
        bar(19, 3, 8),
        bar(19, 1, 9),
    ]
}

#[test]
fn a_spike_bar_sweeping_the_latest_low_is_bullish() {
    let bars = sweep_fixture();
    let spikes = vec![true; bars.len()];
    let sweeps = liquidity_sweeps(&bars, &spikes, 1, 0);
    assert_eq!(sweeps.len(), bars.len());
    // bar 1 is a swing low (5) confirmed at bar 2; bar 3 trades to 4 and closes at 8
    assert_eq!(
        sweeps[3],
        vec![SweepMark {
            side: Side::Bullish,
            swept_pivot_index: 1,
        }]
    );
    assert!(sweeps[0].is_empty() && sweeps[1].is_empty() && sweeps[2].is_empty());
}

#[test]
fn sweeps_need_a_volume_spike() {
    let bars = sweep_fixture();
    let mut spikes = vec![true; bars.len()];
    spikes[3] = false;
    let sweeps = liquidity_sweeps(&bars, &spikes, 1, 0);
    assert!(sweeps[3].is_empty());
}

#[test]
fn the_cooldown_holds_back_a_second_sweep_on_the_same_side() {
    let bars = sweep_fixture();
    let spikes = vec![true; bars.len()];
    let free = liquidity_sweeps(&bars, &spikes, 1, 0);
    let held = liquidity_sweeps(&bars, &spikes, 1, 10);
    let bull_bars = |sweeps: &Vec<Vec<SweepMark>>| {
        sweeps
            .iter()
            .enumerate()
            .filter(|(_, marks)| marks.iter().any(|m| m.side == Side::Bullish))
            .map(|(idx, _)| idx)
            .collect::<Vec<_>>()
    };
    let spaced = liquidity_sweeps(&bars, &spikes, 1, 1);
    assert_eq!(bull_bars(&free), vec![3, 4, 5, 7]);
    assert_eq!(bull_bars(&held), vec![3]);
    let spaced_bulls = bull_bars(&spaced);
    assert_eq!(spaced_bulls, vec![3, 5, 7]);
    for pair in spaced_bulls.windows(2) {
        assert!(pair[1] - pair[0] > 1);
    }
}

#[test]
fn a_spike_bar_sweeping_the_latest_high_is_bearish() {
    let bars = vec![
        bar(10, 5, 7),
        bar(15, 6, 8),
        bar(12, 7, 9),
        bar(16, 8, 14),
    ];
    let spikes = vec![true; bars.len()];
    let sweeps = liquidity_sweeps(&bars, &spikes, 1, 3);
    assert_eq!(
        sweeps[3],
        vec![SweepMark {
            side: Side::Bearish,
            swept_pivot_index: 1,
        }]
    );
}

fn ribbon_bar(rising: bool, falling: bool, above: bool, below: bool) -> RibbonBar {
    RibbonBar {
        rising,
        falling,
        close_above_base: above,
        close_below_base: below,
        breaks_upper: false,
        breaks_lower: false,
        high_above_target: false,
        low_below_target: false,
    }
}

#[test]
fn trend_age_counts_bars_on_the_same_side() {
    let mut trend = RibbonTrend::start();
    let up = ribbon_bar(true, false, true, false);
    let mut ages = Vec::new();
    for _ in 0..4 {
        let (next, call) = trend.advance(up);
        assert_eq!(call.side, Some(Side::Bullish));
        ages.push(call.trend_age);
        trend = next;
    }
    assert_eq!(ages, vec![0, 1, 2, 3]);
    let (next, call) = trend.advance(ribbon_bar(false, true, false, true));
    assert_eq!((call.side, call.trend_age), (Some(Side::Bearish), 0));
    let (_, call) = next.advance(ribbon_bar(true, false, false, true));
    assert_eq!((call.side, call.trend_age), (None, 0));
    assert_eq!(call.target, TargetMove::Clear);
}

#[test]
fn band_breaks_set_targets_and_reached_targets_clear() {
    let trend = RibbonTrend::start();
    let mut up = ribbon_bar(true, false, true, false);
    up.breaks_upper = true;
    let (trend, call) = trend.advance(up);
    assert!(call.bull_cross && !call.bear_cross);
    assert_eq!(call.target, TargetMove::Above);

    let hold = ribbon_bar(true, false, true, false);
    let (trend, call) = trend.advance(hold);
    assert_eq!(call.target, TargetMove::Hold);

    let mut reached = hold;
    reached.high_above_target = true;
    let (_, call) = trend.advance(reached);
    assert_eq!(call.target, TargetMove::Clear);

    let mut down = ribbon_bar(false, true, false, true);
    down.breaks_lower = true;
    down.breaks_upper = true;
    let (_, call) = RibbonTrend::start().advance(down);
    assert!(call.bear_cross && !call.bull_cross);
    assert_eq!(call.target, TargetMove::Below);
}

#[test]
fn renko_tolerance_steps_at_four_ten_and_twenty_seven_bricks() {
    let halves = |bricks: usize| {
        RenkoState {
            last_signal: Some(Side::Bullish),
            consecutive_bricks: bricks,
        }
        .tolerance_halves()
    };
    assert_eq!(halves(0), 2);
    assert_eq!(halves(3), 2);
    assert_eq!(halves(4), 3);
    assert_eq!(halves(9), 3);
    assert_eq!(halves(10), 4);
    assert_eq!(halves(26), 4);
    assert_eq!(halves(27), 6);
}

#[test]
fn renko_signals_alternate_and_bricks_run() {
    let mut state = RenkoState::start();
    let mut signals = Vec::new();
    let bricks = [
        Some(Side::Bullish),
        Some(Side::Bullish),
        None,
        Some(Side::Bullish),
        Some(Side::Bearish),
        Some(Side::Bearish),
        Some(Side::Bullish),
    ];
    let mut runs = Vec::new();
    for brick in bricks {
        state = state.count_brick(brick);
        let (next, signal) = state.settle(brick, true, true);
        state = next;
        signals.push(signal);
        runs.push(state.consecutive_bricks);
        assert_eq!(state.last_signal.is_none(), state.consecutive_bricks == 0);
    }
    assert_eq!(
        signals,
        vec![
            Some(Side::Bullish),
            None,
            None,
            None,
            Some(Side::Bearish),
            None,
            Some(Side::Bullish),
        ]
    );
    assert_eq!(runs, vec![1, 2, 2, 3, 1, 2, 1]);
}

#[test]
fn renko_without_a_brick_changes_nothing() {
    let state = RenkoState {
        last_signal: Some(Side::Bearish),
        consecutive_bricks: 5,
    };
    assert_eq!(state.count_brick(None), state);
    assert_eq!(state.settle(None, true, true), (state, None));
    assert_eq!(RenkoState::start().settle(None, false, false), (RenkoState::start(), None));
}

#[test]
fn baseline_votes_follow_ready_bands_and_stick() {
    let idle = BandCheck {
        ready: false,
        above: true,
        below: false,
    };
    let above = BandCheck {
        ready: true,
        above: true,
        below: false,
    };
    let below = BandCheck {
        ready: true,
        above: false,
        below: true,
    };
    let inside = BandCheck {
        ready: true,
        above: false,
        below: false,
    };
    let (scores, ready) = update_votes([0; 5], [idle; 5]);
    assert_eq!((scores, ready), ([0; 5], false));
    let (scores, ready) = update_votes(scores, [above, above, below, idle, inside]);
    assert_eq!(scores, [1, 1, -1, 0, 0]);
    assert!(ready);
    assert_eq!(vote_total(scores), 1);
    assert_eq!(vote_side(scores), Some(Side::Bullish));
    let (scores, _) = update_votes(scores, [inside, below, below, below, inside]);
    assert_eq!(scores, [1, -1, -1, -1, 0]);
    assert_eq!(vote_total(scores), -2);
    assert_eq!(vote_side(scores), Some(Side::Bearish));
    assert_eq!(vote_side([1, -1, 0, 0, 0]), None);
}

#[test]
fn window_extremes_take_the_first_of_equal_keys_and_skip_missing() {
    let keys = vec![Some(3), None, Some(7), Some(7), Some(1), None];
    assert_eq!(window_extreme(&keys, 0, 6, true), Some(2));
    assert_eq!(window_extreme(&keys, 0, 6, false), Some(4));
    assert_eq!(window_extreme(&keys, 1, 2, true), None);
    assert_eq!(window_extreme(&keys, 5, 5, false), None);
    assert_eq!(window_extreme(&keys, 0, 2, false), Some(0));
}

#[test]
fn trailing_and_prior_windows() {
    let keys = vec![Some(5), Some(9), Some(2), Some(4), Some(1)];
    assert_eq!(
        trailing_extremes(&keys, 2, true),
        vec![Some(0), Some(1), Some(1), Some(3), Some(3)]
    );
    assert_eq!(
        trailing_extremes(&keys, 3, false),
        vec![Some(0), Some(0), Some(2), Some(2), Some(4)]
    );
    assert_eq!(
        prior_extremes(&keys, 2, true),
        vec![None, Some(0), Some(1), Some(1), Some(3)]
    );
    assert_eq!(
        prior_extremes(&keys, 2, false),
        vec![None, Some(0), Some(0), Some(2), Some(2)]
    );
}

#[test]
fn vwap_sessions_restart_on_anchors() {
    let anchors = vec![false, false, true, false, false, true, true, false];
    assert_eq!(anchor_starts(&anchors), vec![0, 0, 2, 2, 2, 5, 6, 6]);
    assert_eq!(anchor_starts(&vec![true, false]), vec![0, 0]);
    assert!(anchor_starts(&Vec::new()).is_empty());
}

#[test]
fn breakouts_age_until_the_next_one() {
    let breakouts = vec![
        None,
        None,
        Some(Side::Bullish),
        None,
        None,
        Some(Side::Bearish),
        None,
    ];
    let active = |side, bars_since| Some(ActiveBreakout { side, bars_since });
    assert_eq!(
        breakout_tracks(&breakouts),
        vec![
            None,
            None,
            active(Side::Bullish, 0),
            active(Side::Bullish, 1),
            active(Side::Bullish, 2),
            active(Side::Bearish, 0),
            active(Side::Bearish, 1),
        ]
    );
}

fn quiet_reading() -> WyckoffReading {
    WyckoffReading {
        close_above_range: false,
        close_below_range: false,
        slope_up: false,
        slope_down: false,
        near_range_low: false,
        near_range_high: false,
        volume_surge: false,
        slope_above_floor: true,
        slope_below_ceiling: true,
    }
}

#[test]
fn wyckoff_phases_in_priority_order() {
    assert_eq!(classify_phase(quiet_reading()), WyckoffPhase::Neutral);
    let mut r = quiet_reading();
    r.close_above_range = true;
    assert_eq!(classify_phase(r), WyckoffPhase::Neutral);
    r.slope_up = true;
    assert_eq!(classify_phase(r), WyckoffPhase::Markup);
    let mut r = quiet_reading();
    r.close_below_range = true;
    r.slope_down = true;
    r.near_range_low = true;
    r.volume_surge = true;
    assert_eq!(classify_phase(r), WyckoffPhase::Markdown);
    r.close_below_range = false;
    assert_eq!(classify_phase(r), WyckoffPhase::Accumulation);
    r.slope_above_floor = false;
    assert_eq!(classify_phase(r), WyckoffPhase::Neutral);
    let mut r = quiet_reading();
    r.near_range_high = true;
    r.volume_surge = true;
    assert_eq!(classify_phase(r), WyckoffPhase::Distribution);
    r.slope_below_ceiling = false;
    assert_eq!(classify_phase(r), WyckoffPhase::Neutral);
}

#[test]
fn the_largest_magnitude_dominates_and_ties_go_to_the_later_factor() {
    assert_eq!(dominant_factor([5, 1, 2, 3]), MomentumVolFactor::Roc);
    assert_eq!(dominant_factor([1, 5, 2, 3]), MomentumVolFactor::Atr);
    assert_eq!(dominant_factor([1, 5, 5, 3]), MomentumVolFactor::VolumeFlow);
    assert_eq!(dominant_factor([4, 4, 4, 4]), MomentumVolFactor::EmaDiff);
}

#[test]
fn ema_seeds_after_period_values_and_restarts_after_a_gap() {
    let present = vec![true, true, true, true, false, true, true, true];
    assert_eq!(
        ema_phases(&present, 3),
        vec![
            EmaPhase::Warmup,
            EmaPhase::Warmup,
            EmaPhase::Seed,
            EmaPhase::Update,
            EmaPhase::Reset,
            EmaPhase::Warmup,
            EmaPhase::Warmup,
            EmaPhase::Seed,
        ]
    );
    assert_eq!(ema_phases(&vec![true, true], 1), vec![EmaPhase::Seed, EmaPhase::Update]);
}

#[test]
fn moving_average_windows_need_every_value_finite() {
    let finite = vec![true, true, true, false, true, true, true, true];
    assert_eq!(
        complete_windows(&finite, 3),
        vec![false, false, true, false, false, false, true, true]
    );
    assert_eq!(complete_windows(&finite, 1), finite);
}

#[test]
fn shifting_keeps_the_first_values_in_place() {
    let values = vec![1.5, 2.5, 3.5, 4.5];
    assert_eq!(shifted_with_current_fallback(&values, 1), vec![1.5, 1.5, 2.5, 3.5]);
    assert_eq!(shifted_with_current_fallback(&values, 2), vec![1.5, 2.5, 1.5, 2.5]);
    assert_eq!(shifted_with_current_fallback(&values, 0), values);
    assert_eq!(shifted_with_current_fallback(&values, 9), values);
}

#[test]
fn windows_sort_by_key_keeping_ties_in_place() {
    let keys = vec![40, -3, 7, 7, 12, -3, 0];
    assert_eq!(sorted_window(&keys, 0, 7), vec![1, 5, 6, 2, 3, 4, 0]);
    assert_eq!(sorted_window(&keys, 2, 5), vec![2, 3, 4]);
    assert_eq!(sorted_window(&keys, 3, 7), vec![5, 6, 3, 4]);
    assert!(sorted_window(&keys, 4, 4).is_empty());
}

#[test]
fn the_median_place_of_a_sorted_window() {
    let values: Vec<f64> = vec![3.5, -1.0, 8.25, 0.5, 2.0];
    let keys: Vec<i64> = values.iter().map(|v| total_order_key(v.to_bits())).collect();
    let order = sorted_window(&keys, 0, 5);
    assert_eq!(values[order[2]], 2.0);
    let order = sorted_window(&keys, 1, 5);
    assert_eq!((values[order[1]] + values[order[2]]) * 0.5, 1.25);
}

#[test]
fn float_keys_order_like_total_cmp() {
    assert_eq!(total_order_key(0.0f64.to_bits()), 0);
    assert_eq!(total_order_key((-0.0f64).to_bits()), -1);
    assert_eq!(total_order_key(1.0f64.to_bits()), 0x3ff0_0000_0000_0000);
    assert_eq!(total_order_key((-1.0f64).to_bits()), -0x3ff0_0000_0000_0001);
    let samples = [
        f64::NEG_INFINITY,
        -1.0e300,
        -2.5,
        -1.0e-300,
        -0.0,
        0.0,
        5.0e-324,
        1.0,
        3.75,
        f64::MAX,
        f64::INFINITY,
        f64::NAN,
    ];
    for a in samples {
        for b in samples {
            assert_eq!(
                total_order_key(a.to_bits()).cmp(&total_order_key(b.to_bits())),
                a.total_cmp(&b)
            );
        }
    }
}

#[test]
fn a_pivot_is_the_extreme_of_its_window() {
    let bars = vec![
        bar(10, 5, 7),
        bar(12, 4, 8),
        bar(11, 6, 9),
        bar(14, 2, 9),
        bar(13, 3, 10),
        bar(9, 4, 8),
    ];
    let highs: Vec<Option<i64>> = bars.iter().map(|b| b.high).collect();
    let lows: Vec<Option<i64>> = bars.iter().map(|b| b.low).collect();
    let pivots = confirmed_pivots(&bars, 1, 1);
    let mut seen = 0;
    for marks in &pivots {
        for mark in marks {
            let (lo, hi) = (mark.pivot_index - 1, mark.pivot_index + 2);
            assert_eq!(mark.confirmed_index, mark.pivot_index + 1);
            let found = match mark.kind {
                PivotKind::High => window_extreme(&highs, lo, hi, true),
                PivotKind::Low => window_extreme(&lows, lo, hi, false),
            };
            assert_eq!(found, Some(mark.pivot_index));
            seen += 1;
        }
    }
    assert_eq!(seen, 4);
}
