use vstd::prelude::*;
use std::collections::VecDeque;
use crate::container::TsNano;

verus! {

/// Nanoseconds per millisecond.
pub const MS: u64 = 1_000_000;

/// Nanoseconds per second.
pub const SEC: u64 = 1_000_000_000;

/// The grid that pulse anchors lie on.
pub const PULSE_GRID: u64 = 10000;

/// The anchor of a list of pulse ids: the first one rounded down to the
/// grid, zero for an empty list.
pub open spec fn pulse_anchor(pulses: Seq<u64>) -> u64 {
    if pulses.len() == 0 {
        0
    } else {
        (pulses[0] / PULSE_GRID * PULSE_GRID) as u64
    }
}

/// The pulse ids as an anchor and the offsets from it. Every pulse id is at
/// least the anchor, as where the list is ordered.
pub fn pulse_offs_from_abs(pulses: &VecDeque<u64>) -> (r: (u64, VecDeque<u64>))
    requires
        forall|i: int| 0 <= i < pulses@.len() ==> pulses@[i] >= pulse_anchor(pulses@),
    ensures
        r.0 == pulse_anchor(pulses@),
        r.1@.len() == pulses@.len(),
        forall|i: int| 0 <= i < pulses@.len() ==> #[trigger] r.1@[i] == pulses@[i] - r.0,
{
    let anchor: u64 = if pulses.len() == 0 {
        0
    } else {
        pulses[0] / PULSE_GRID * PULSE_GRID
    };
    let mut offs: VecDeque<u64> = VecDeque::new();
    let mut i: usize = 0;
    while i < pulses.len()
        invariant
            0 <= i <= pulses@.len(),
            anchor == pulse_anchor(pulses@),
            forall|j: int| 0 <= j < pulses@.len() ==> pulses@[j] >= anchor,
            offs@.len() == i,
            forall|j: int| 0 <= j < i ==> #[trigger] offs@[j] == pulses@[j] - anchor,
        decreases pulses@.len() - i,
    {
        offs.push_back(pulses[i] - anchor);
        i = i + 1;
    }
    (anchor, offs)
}

/// The anchor second of a list of timestamps: the whole seconds of the
/// first one, zero for an empty list.
pub open spec fn ts_anchor_sec(tss: Seq<TsNano>) -> u64 {
    if tss.len() == 0 {
        0
    } else {
        (tss[0].ns / SEC) as u64
    }
}

/// The timestamps as offsets from an anchor second: whole milliseconds and
/// the nanoseconds left over. Every timestamp is at least the anchor.
pub fn ts_offs_from_abs_with_anchor(ts_anchor_sec: u64, tss: &VecDeque<TsNano>) -> (r: (
    VecDeque<u64>,
    VecDeque<u64>,
))
    requires
        ts_anchor_sec * SEC <= u64::MAX,
        forall|i: int| 0 <= i < tss@.len() ==> tss@[i].ns >= ts_anchor_sec * SEC,
    ensures
        r.0@.len() == tss@.len(),
        r.1@.len() == tss@.len(),
        forall|i: int|
            0 <= i < tss@.len() ==> {
                &&& #[trigger] r.0@[i] == (tss@[i].ns - ts_anchor_sec * SEC) / (MS as int)
                &&& r.1@[i] == (tss@[i].ns - ts_anchor_sec * SEC) % (MS as int)
            },
{
    let anchor_ns = ts_anchor_sec * SEC;
    let mut offs_ms: VecDeque<u64> = VecDeque::new();
    let mut offs_ns: VecDeque<u64> = VecDeque::new();
    let mut i: usize = 0;
    while i < tss.len()
        invariant
            0 <= i <= tss@.len(),
            anchor_ns == ts_anchor_sec * SEC,
            forall|j: int| 0 <= j < tss@.len() ==> tss@[j].ns >= anchor_ns,
            offs_ms@.len() == i,
            offs_ns@.len() == i,
            forall|j: int|
                0 <= j < i ==> {
                    &&& #[trigger] offs_ms@[j] == (tss@[j].ns - anchor_ns) / (MS as int)
                    &&& offs_ns@[j] == (tss@[j].ns - anchor_ns) % (MS as int)
                },
        decreases tss@.len() - i,
    {
        let d = tss[i].ns - anchor_ns;
        let ms = d / MS;
        assert(ms * MS <= d) by (nonlinear_arith)
            requires
                ms == d / MS,
        ;
        let rest = d - ms * MS;
        assert(rest == d % MS) by (nonlinear_arith)
            requires
                ms == d / MS,
                rest == d - ms * MS,
        ;
        offs_ms.push_back(ms);
        offs_ns.push_back(rest);
        i = i + 1;
    }
    (offs_ms, offs_ns)
}

/// The timestamps as their anchor second and the offsets from it.
pub fn ts_offs_from_abs(tss: &VecDeque<TsNano>) -> (r: (u64, VecDeque<u64>, VecDeque<u64>))
    requires
        forall|i: int| 0 <= i < tss@.len() ==> tss@[i].ns >= ts_anchor_sec(tss@) * SEC,
    ensures
        r.0 == ts_anchor_sec(tss@),
        r.1@.len() == tss@.len(),
        r.2@.len() == tss@.len(),
        forall|i: int|
            0 <= i < tss@.len() ==> {
                &&& #[trigger] r.1@[i] == (tss@[i].ns - r.0 * SEC) / (MS as int)
                &&& r.2@[i] == (tss@[i].ns - r.0 * SEC) % (MS as int)
            },
{
    let first: u64 = if tss.len() == 0 {
        0
    } else {
        tss[0].ns
    };
    let anchor = first / SEC;
    assert(anchor * SEC <= first) by (nonlinear_arith)
        requires
            anchor == first / SEC,
    ;
    let (a, b) = ts_offs_from_abs_with_anchor(anchor, tss);
    (anchor, a, b)
}

} // verus!
