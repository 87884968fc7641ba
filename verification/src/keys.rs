use vstd::prelude::*;

verus! {

/// Order keys of one bar's high, low and close.
///
/// A key places a price in the total order of prices: for two present keys,
/// one price is below another exactly when its key is smaller. A missing key
/// stands for a price that compares false with everything (a NaN).
#[derive(Clone, Copy, Debug, PartialEq, Eq, Structural)]
pub struct BarKeys {
    pub high: Option<i64>,
    pub low: Option<i64>,
    pub close: Option<i64>,
}

/// The high keys of a series of bars.
pub open spec fn high_keys(bars: Seq<BarKeys>) -> Seq<Option<i64>> {
    Seq::new(bars.len(), |i: int| bars[i].high)
}

/// The low keys of a series of bars.
pub open spec fn low_keys(bars: Seq<BarKeys>) -> Seq<Option<i64>> {
    Seq::new(bars.len(), |i: int| bars[i].low)
}

/// `a > b` between two prices given by their keys.
pub open spec fn key_gt(a: Option<i64>, b: Option<i64>) -> bool {
    &&& a is Some
    &&& b is Some
    &&& a->0 > b->0
}

/// `a < b` between two prices given by their keys.
pub open spec fn key_lt(a: Option<i64>, b: Option<i64>) -> bool {
    key_gt(b, a)
}

/// Whether the price keyed by `a` is strictly above the one keyed by `b`.
pub fn key_greater(a: Option<i64>, b: Option<i64>) -> (r: bool)
    ensures
        r == key_gt(a, b),
{
    match (a, b) {
        (Some(x), Some(y)) => x > y,
        _ => false,
    }
}

/// Whether the price keyed by `a` is strictly below the one keyed by `b`.
pub fn key_less(a: Option<i64>, b: Option<i64>) -> (r: bool)
    ensures
        r == key_lt(a, b),
{
    key_greater(b, a)
}

/// The magnitude bits of a binary64 bit pattern (all but the sign bit).
pub open spec fn magnitude_bits(bits: u64) -> int {
    (bits & 0x7fff_ffff_ffff_ffffu64) as int
}

/// The total-order position of a binary64 bit pattern: its magnitude, made
/// negative (and one lower, so that negative zero sits just below positive
/// zero) when the sign bit is set. Between two non-NaN floats this orders
/// them as their values do; this is the order of `f64::total_cmp`.
pub open spec fn total_order_position(bits: u64) -> int {
    if bits >= 0x8000_0000_0000_0000u64 {
        -magnitude_bits(bits) - 1
    } else {
        magnitude_bits(bits)
    }
}

/// The order key of a binary64 bit pattern (see `total_order_position`).
pub fn total_order_key(bits: u64) -> (k: i64)
    ensures
        k == total_order_position(bits),
{
    let magnitude = bits & 0x7fff_ffff_ffff_ffffu64;
    assert(magnitude <= 0x7fff_ffff_ffff_ffffu64) by (bit_vector)
        requires
            magnitude == bits & 0x7fff_ffff_ffff_ffffu64,
    ;
    let m = magnitude as i64;
    if bits >= 0x8000_0000_0000_0000u64 {
        -m - 1
    } else {
        m
    }
}

} // verus!
