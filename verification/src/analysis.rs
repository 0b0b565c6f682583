//! Timestamp analysis kernels: windowing of message timestamps and the
//! integer quantities (gaps, spans, counts) that the timing metrics are made of.

use vstd::prelude::*;
use crate::text::{decimal, decimal_string, push_str};

verus! {

/// Errors returned by the timestamp analysis helpers.
#[derive(Debug, Clone, Copy, PartialEq, Eq, Structural)]
pub enum AnalysisError {
    InvalidInclusiveWindow,
    InvalidStrictWindow,
    InvalidSegmentWindow { segment_index: usize },
    SegmentLabelIndexOutOfBounds { segment_index: usize, label_idx: usize, labels_len: usize },
    InvalidTimestampValue,
}

/// The message of an analysis error (what `Display` prints for it).
pub open spec fn analysis_message(e: AnalysisError) -> Seq<char> {
    match e {
        AnalysisError::InvalidInclusiveWindow => "end_ns must be greater than or equal to start_ns"@,
        AnalysisError::InvalidStrictWindow => "end_ns must be greater than start_ns"@,
        AnalysisError::InvalidSegmentWindow { segment_index } => "segment "@ + decimal(
            segment_index as nat,
        ) + " has end_time <= start_time"@,
        AnalysisError::SegmentLabelIndexOutOfBounds { segment_index, label_idx, labels_len } =>
            "segment "@ + decimal(segment_index as nat) + " references label_idx "@ + decimal(
            label_idx as nat,
        ) + ", but labels has length "@ + decimal(labels_len as nat),
        AnalysisError::InvalidTimestampValue =>
            "metadata contained a non-finite or out-of-range timestamp value"@,
    }
}

impl AnalysisError {
    /// Renders the error's message.
    pub fn to_string(&self) -> (s: String)
        ensures
            s@ == analysis_message(*self),
    {
        match self {
            AnalysisError::InvalidInclusiveWindow => {
                "end_ns must be greater than or equal to start_ns".to_string()
            },
            AnalysisError::InvalidStrictWindow => "end_ns must be greater than start_ns".to_string(),
            AnalysisError::InvalidSegmentWindow { segment_index } => {
                let mut s = "segment ".to_string();
                push_str(&mut s, decimal_string(*segment_index as u64).as_str());
                push_str(&mut s, " has end_time <= start_time");
                s
            },
            AnalysisError::SegmentLabelIndexOutOfBounds { segment_index, label_idx, labels_len } => {
                let mut s = "segment ".to_string();
                push_str(&mut s, decimal_string(*segment_index as u64).as_str());
                push_str(&mut s, " references label_idx ");
                push_str(&mut s, decimal_string(*label_idx as u64).as_str());
                push_str(&mut s, ", but labels has length ");
                push_str(&mut s, decimal_string(*labels_len as u64).as_str());
                s
            },
            AnalysisError::InvalidTimestampValue => {
                "metadata contained a non-finite or out-of-range timestamp value".to_string()
            },
        }
    }
}

/// Whether a sequence of timestamps is in ascending order.
pub open spec fn is_sorted(s: Seq<i64>) -> bool {
    forall|i: int, j: int| 0 <= i <= j < s.len() ==> s[i] <= s[j]
}

/// Whether a timestamp lies in the inclusive window `[start, end]`.
pub open spec fn in_window(t: i64, start: i64, end: i64) -> bool {
    start <= t && t <= end
}

/// Sorts timestamps in ascending order (`slice::sort_unstable`): the result is
/// sorted and holds the same timestamps, each as often as before.
#[verifier::external_body]
fn sort_ascending(v: &mut Vec<i64>)
    ensures
        is_sorted(final(v)@),
        final(v)@.to_multiset() == old(v)@.to_multiset(),
{
    v.sort_unstable();
}

/// Returns a sorted copy of the timestamps.
pub fn sorted_timestamps_ns(values: &[i64]) -> (r: Vec<i64>)
    ensures
        is_sorted(r@),
        r@.to_multiset() == values@.to_multiset(),
{
    let mut timestamps: Vec<i64> = Vec::new();
    timestamps.extend_from_slice(values);
    assert(timestamps@ =~= values@);
    sort_ascending(&mut timestamps);
    timestamps
}

/// Returns the timestamps that fall inside the inclusive window `[start_ns, end_ns]`,
/// sorted; a window that ends before it starts is refused.
pub fn slice_timestamps_to_window(timestamps_ns: &[i64], start_ns: i64, end_ns: i64) -> (r: Result<
    Vec<i64>,
    AnalysisError,
>)
    ensures
        end_ns < start_ns ==> r == Err::<Vec<i64>, AnalysisError>(
            AnalysisError::InvalidInclusiveWindow,
        ),
        start_ns <= end_ns ==> (r matches Ok(v) && is_sorted(v@) && v@.to_multiset()
            == timestamps_ns@.to_multiset().filter(|t: i64| in_window(t, start_ns, end_ns))),
{
    broadcast use vstd::multiset::group_multiset_axioms;
    broadcast use vstd::seq_lib::to_multiset_build;
    broadcast use vstd::seq_lib::group_to_multiset_ensures;

    if end_ns < start_ns {
        return Err(AnalysisError::InvalidInclusiveWindow);
    }
    let sorted = sorted_timestamps_ns(timestamps_ns);
    let ghost pred = |t: i64| in_window(t, start_ns, end_ns);
    let mut out: Vec<i64> = Vec::new();
    let mut i: usize = 0;
    assert(sorted@.take(0) =~= Seq::<i64>::empty());
    assert(out@.to_multiset() =~= sorted@.take(0).to_multiset().filter(pred));
    while i < sorted.len()
        invariant
            i <= sorted@.len(),
            is_sorted(sorted@),
            is_sorted(out@),
            pred == (|t: i64| in_window(t, start_ns, end_ns)),
            forall|k: int, j: int| 0 <= k < out@.len() && i <= j < sorted@.len() ==> out@[k] <= sorted@[j],
            out@.to_multiset() == sorted@.take(i as int).to_multiset().filter(pred),
        decreases sorted.len() - i,
    {
        let t = sorted[i];
        let ghost before = sorted@.take(i as int);
        assert(sorted@.take(i + 1) =~= before.push(t));
        let ghost out_before = out@;
        proof {
            vstd::seq_lib::to_multiset_build(before, t);
            vstd::seq_lib::to_multiset_build(out_before, t);
        }
        if start_ns <= t && t <= end_ns {
            out.push(t);
            assert(pred(t));
            assert(out@ =~= out_before.push(t));
            assert(out@.to_multiset() =~= before.push(t).to_multiset().filter(pred));
        } else {
            assert(!pred(t));
            assert(out@.to_multiset() =~= before.push(t).to_multiset().filter(pred));
        }
        i += 1;
    }
    assert(sorted@.take(sorted@.len() as int) =~= sorted@);
    assert(sorted@.to_multiset().filter(pred) =~= timestamps_ns@.to_multiset().filter(
        |t: i64| in_window(t, start_ns, end_ns),
    ));
    Ok(out)
}

/// The windowed timestamps are determined by the window: two sorted
/// sequences that both hold exactly the in-window timestamps are equal, so the
/// contract of [`slice_timestamps_to_window`] fixes its result.
pub proof fn lemma_window_unique(a: Seq<i64>, b: Seq<i64>, timestamps: Seq<i64>, start: i64, end: i64)
    requires
        is_sorted(a),
        is_sorted(b),
        a.to_multiset() == timestamps.to_multiset().filter(|t: i64| in_window(t, start, end)),
        b.to_multiset() == timestamps.to_multiset().filter(|t: i64| in_window(t, start, end)),
    ensures
        a == b,
{
    let leq = |x: i64, y: i64| x <= y;
    assert(vstd::relations::total_ordering(leq));
    assert(vstd::relations::sorted_by(a, leq));
    assert(vstd::relations::sorted_by(b, leq));
    vstd::seq_lib::lemma_sorted_unique(a, b, leq);
}

/// The gaps between consecutive timestamps of a sequence.
pub open spec fn gaps(s: Seq<i64>) -> Seq<int> {
    Seq::new(if s.len() < 2 { 0 } else { (s.len() - 1) as nat }, |i: int| s[i + 1] - s[i])
}

/// The gaps, in nanoseconds, between consecutive timestamps of a sorted
/// sequence (none for fewer than two timestamps).
pub fn adjacent_gaps_ns(sorted: &[i64]) -> (r: Vec<u64>)
    requires
        is_sorted(sorted@),
    ensures
        r@.len() == gaps(sorted@).len(),
        forall|i: int| 0 <= i < r@.len() ==> r@[i] as int == #[trigger] gaps(sorted@)[i],
{
    let mut r: Vec<u64> = Vec::new();
    if sorted.len() < 2 {
        return r;
    }
    let mut i: usize = 0;
    while i + 1 < sorted.len()
        invariant
            sorted@.len() >= 2,
            i + 1 <= sorted@.len(),
            is_sorted(sorted@),
            r@.len() == i,
            forall|k: int| 0 <= k < i ==> r@[k] as int == sorted@[k + 1] - sorted@[k],
        decreases sorted.len() - i,
    {
        let a = sorted[i];
        let b = sorted[i + 1];
        assert(a <= b);
        let gap: i128 = b as i128 - a as i128;
        r.push(gap as u64);
        i += 1;
    }
    r
}

/// The span, in nanoseconds, from the first to the last timestamp of a
/// sorted sequence (0 for an empty one).
pub fn observed_span_ns(sorted: &[i64]) -> (r: u64)
    requires
        is_sorted(sorted@),
    ensures
        r == (if sorted@.len() == 0 { 0 } else { sorted@.last() - sorted@[0] }),
{
    if sorted.len() == 0 {
        return 0;
    }
    let first = sorted[0];
    let last = sorted[sorted.len() - 1];
    assert(first <= last);
    let span: i128 = last as i128 - first as i128;
    span as u64
}

} // verus!
