use vstd::prelude::*;

verus! {

/// `s` is where the session holding bar `i` starts: the latest anchored bar
/// at or before `i`, the first bar counting as anchored.
pub open spec fn is_session_start(anchors: Seq<bool>, i: int, s: int) -> bool {
    &&& 0 <= s <= i
    &&& (s == 0 || anchors[s])
    &&& forall|j: int| s < j <= i ==> !(#[trigger] anchors[j])
}

/// For every bar, the bar its anchored VWAP is accumulated from: the VWAP
/// restarts on every anchored bar, and on the first bar.
pub fn anchor_starts(anchors: &Vec<bool>) -> (out: Vec<usize>)
    ensures
        out.len() == anchors.len(),
        forall|i: int| 0 <= i < anchors.len() ==> is_session_start(anchors@, i, #[trigger] out@[i] as int),
{
    let n = anchors.len();
    let mut out: Vec<usize> = Vec::new();
    let mut current: Option<usize> = None;
    let mut i: usize = 0;
    while i < n
        invariant
            n == anchors.len(),
            i <= n,
            out.len() == i,
            i == 0 <==> current is None,
            current matches Some(s) ==> is_session_start(anchors@, i - 1, s as int),
            forall|k: int| 0 <= k < i ==> is_session_start(anchors@, k, #[trigger] out@[k] as int),
        decreases n - i,
    {
        let start = match current {
            Some(s) => if anchors[i] {
                i
            } else {
                s
            },
            None => i,
        };
        current = Some(start);
        out.push(start);
        i += 1;
    }
    out
}

/// Two bars share a session exactly when no anchored bar lies after the
/// first of them and up to the second.
pub proof fn law_session_shared_until_next_anchor(anchors: Seq<bool>, i: int, j: int, si: int, sj: int)
    requires
        0 <= i <= j < anchors.len(),
        is_session_start(anchors, i, si),
        is_session_start(anchors, j, sj),
    ensures
        (si == sj) <==> (forall|k: int| i < k <= j ==> !(#[trigger] anchors[k])),
{
    if si == sj {
        assert forall|k: int| i < k <= j implies !(#[trigger] anchors[k]) by {}
    }
    if forall|k: int| i < k <= j ==> !(#[trigger] anchors[k]) {
        if sj > si {
            assert(anchors[sj]);
        }
        if sj < si {
            assert(anchors[si]);
        }
    }
}

} // verus!
