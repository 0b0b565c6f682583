use rebake::analysis::{
    AnalysisError, adjacent_gaps_ns, observed_span_ns, slice_timestamps_to_window, sorted_timestamps_ns,
};

#[test]
fn slice_timestamps_filters_inclusively_and_sorts() {
    let result = slice_timestamps_to_window(&[300, 100, 200, 400, 500], 200, 400).unwrap();
    assert_eq!(result, vec![200, 300, 400]);
}

#[test]
fn slice_timestamps_rejects_reversed_window() {
    let result = slice_timestamps_to_window(&[1, 2, 3], 5, 4);
    assert_eq!(result, Err(AnalysisError::InvalidInclusiveWindow));
}

#[test]
fn slice_timestamps_keeps_duplicates_and_single_point_window() {
    let result = slice_timestamps_to_window(&[7, 3, 7, 9, 7], 7, 7).unwrap();
    assert_eq!(result, vec![7, 7, 7]);
    let empty = slice_timestamps_to_window(&[], 0, 10).unwrap();
    assert!(empty.is_empty());
    let negative = slice_timestamps_to_window(&[-5, 10, -20, 0], -10, 0).unwrap();
    assert_eq!(negative, vec![-5, 0]);
}

#[test]
fn sorted_timestamps_sorts_ascending() {
    assert_eq!(sorted_timestamps_ns(&[3, -1, 2, 2]), vec![-1, 2, 2, 3]);
}

#[test]
fn analysis_error_messages_match_display() {
    assert_eq!(
        AnalysisError::InvalidInclusiveWindow.to_string(),
        "end_ns must be greater than or equal to start_ns"
    );
    assert_eq!(AnalysisError::InvalidStrictWindow.to_string(), "end_ns must be greater than start_ns");
    assert_eq!(
        AnalysisError::InvalidSegmentWindow { segment_index: 3 }.to_string(),
        "segment 3 has end_time <= start_time"
    );
    assert_eq!(
        AnalysisError::SegmentLabelIndexOutOfBounds { segment_index: 1, label_idx: 5, labels_len: 2 }
            .to_string(),
        "segment 1 references label_idx 5, but labels has length 2"
    );
    assert_eq!(
        AnalysisError::InvalidTimestampValue.to_string(),
        "metadata contained a non-finite or out-of-range timestamp value"
    );
}

#[test]
fn adjacent_gaps_are_the_deltas_of_sorted_timestamps() {
    let sorted = sorted_timestamps_ns(&[450_000_000, 0, 100_000_000]);
    assert_eq!(adjacent_gaps_ns(&sorted), vec![100_000_000, 350_000_000]);
    assert_eq!(adjacent_gaps_ns(&[7]), Vec::<u64>::new());
    assert_eq!(adjacent_gaps_ns(&[]), Vec::<u64>::new());
    assert_eq!(adjacent_gaps_ns(&[i64::MIN, i64::MAX]), vec![u64::MAX]);
}

#[test]
fn observed_span_runs_from_first_to_last() {
    assert_eq!(observed_span_ns(&[0, 100_000_000, 450_000_000]), 450_000_000);
    assert_eq!(observed_span_ns(&[5]), 0);
    assert_eq!(observed_span_ns(&[]), 0);
    assert_eq!(observed_span_ns(&[i64::MIN, 0, i64::MAX]), u64::MAX);
}
