use presence_scan::intervals::{
    merge_timestamps, record_sighting, PresenceInterval, DEFAULT_GAP_TOLERANCE,
};

#[test]
fn interval_merge_timestamp_sequence() {
    let ts: Vec<u64> = vec![0, 1, 2, 8, 9, 20];
    let merged = merge_timestamps(&ts, 5);
    assert_eq!(
        merged,
        vec![
            PresenceInterval { start: 0, end: 2 },
            PresenceInterval { start: 8, end: 9 },
            PresenceInterval { start: 20, end: 20 },
        ]
    );
}

#[test]
fn single_sighting_zero_width() {
    let merged = merge_timestamps(&vec![7], 5);
    assert_eq!(merged, vec![PresenceInterval { start: 7, end: 7 }]);
}

#[test]
fn gap_exactly_tolerance_extends() {
    let merged = merge_timestamps(&vec![0, 5], 5);
    assert_eq!(merged, vec![PresenceInterval { start: 0, end: 5 }]);
}

#[test]
fn gap_over_tolerance_opens_new_interval() {
    let merged = merge_timestamps(&vec![0, 6], 5);
    assert_eq!(
        merged,
        vec![
            PresenceInterval { start: 0, end: 0 },
            PresenceInterval { start: 6, end: 6 },
        ]
    );
}

#[test]
fn record_sighting_extends_and_opens() {
    let mut iv: Vec<PresenceInterval> = Vec::new();
    record_sighting(&mut iv, 3, 5);
    record_sighting(&mut iv, 8, 5);
    assert_eq!(iv, vec![PresenceInterval { start: 3, end: 8 }]);
    record_sighting(&mut iv, 14, 5);
    assert_eq!(iv.len(), 2);
    assert_eq!(iv[1], PresenceInterval { start: 14, end: 14 });
}

#[test]
fn merged_intervals_are_well_formed() {
    let merged = merge_timestamps(&vec![0, 4, 9, 30, 31, 100, 100], DEFAULT_GAP_TOLERANCE);
    for iv in &merged {
        assert!(iv.start <= iv.end);
    }
    for w in merged.windows(2) {
        assert!(w[1].start > w[0].end + DEFAULT_GAP_TOLERANCE);
    }
}
