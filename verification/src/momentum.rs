use vstd::prelude::*;

verus! {

/// The four factors of the momentum/volatility composite.
#[derive(Clone, Copy, Debug, PartialEq, Eq, Structural)]
pub enum MomentumVolFactor {
    Roc,
    Atr,
    VolumeFlow,
    EmaDiff,
}

/// The factor at position `k` of the composite, in the order rate of change,
/// volatility, volume flow, moving-average spread.
pub open spec fn factor_at(k: int) -> MomentumVolFactor {
    if k == 0 {
        MomentumVolFactor::Roc
    } else if k == 1 {
        MomentumVolFactor::Atr
    } else if k == 2 {
        MomentumVolFactor::VolumeFlow
    } else {
        MomentumVolFactor::EmaDiff
    }
}

/// `k` holds the largest key, and no later position holds as large a one.
pub open spec fn is_last_max(keys: Seq<i64>, k: int) -> bool {
    &&& 0 <= k < keys.len()
    &&& forall|j: int| 0 <= j < keys.len() ==> (#[trigger] keys[j]) <= keys[k]
    &&& forall|j: int| k < j < keys.len() ==> (#[trigger] keys[j]) < keys[k]
}

/// The factor with the largest z-score magnitude, given the magnitudes'
/// total-order keys in factor order; on a tie the later factor wins.
pub fn dominant_factor(keys: [i64; 4]) -> (f: MomentumVolFactor)
    ensures
        exists|k: int| #[trigger] is_last_max(keys@, k) && f == factor_at(k),
{
    let mut best: usize = 0;
    let mut j: usize = 1;
    while j < 4
        invariant
            1 <= j <= 4,
            is_last_max(keys@.subrange(0, j as int), best as int),
            best < j,
        decreases 4 - j,
    {
        if keys[j] >= keys[best] {
            best = j;
        }
        j += 1;
    }
    assert(keys@.subrange(0, 4) =~= keys@);
    assert(is_last_max(keys@, best as int));
    if best == 0 {
        MomentumVolFactor::Roc
    } else if best == 1 {
        MomentumVolFactor::Atr
    } else if best == 2 {
        MomentumVolFactor::VolumeFlow
    } else {
        MomentumVolFactor::EmaDiff
    }
}

/// Only one position holds the largest key with no later tie, so the
/// dominant factor is determined by the keys.
pub proof fn law_dominant_factor_unique(keys: Seq<i64>, a: int, b: int)
    requires
        is_last_max(keys, a),
        is_last_max(keys, b),
    ensures
        a == b,
{
    if a < b {
        assert(keys[b] < keys[a]);
        assert(keys[a] <= keys[b]);
    } else if b < a {
        assert(keys[a] < keys[b]);
        assert(keys[b] <= keys[a]);
    }
}

} // verus!
