use folio_core::build_media_record;
use folio_core::group_by_temporal_proximity;
use folio_core::single_batch;
use folio_core::{MediaItem, MediaType, PhotoFormat, Timestamp};

fn photo(name: &str, data: &[u8], ts: Option<Timestamp>) -> MediaItem {
    build_media_record(
        name.to_string(),
        data,
        MediaType::Photo(PhotoFormat::Jpeg),
        ts,
    )
}

fn ts(h: u8, m: u8) -> Timestamp {
    Timestamp::new(2024, 11, 4, h, m, 0).unwrap()
}

const TWO_HOURS: u64 = 2 * 3600;

#[test]
fn test_group_by_temporal_proximity_single_batch() {
    // All items within the 2-hour gap should be in the same batch.
    let timestamp1 = ts(14, 0);
    let timestamp2 = ts(15, 30); // 1.5 hours later

    let items = vec![
        photo("photo1.jpg", b"test1", Some(timestamp1)),
        photo("photo2.jpg", b"test2", Some(timestamp2)),
    ];

    let batches = group_by_temporal_proximity(items, TWO_HOURS);

    assert_eq!(batches.len(), 1, "Should have 1 batch");
    assert_eq!(batches[0].items.len(), 2, "Batch should have 2 items");
    assert_eq!(batches[0].start_time, timestamp1);
    assert_eq!(batches[0].end_time, timestamp2);
}

#[test]
fn test_group_by_temporal_proximity_two_batches() {
    // Items with a gap over 2 hours should be in separate batches.
    let timestamp1 = ts(14, 0);
    let timestamp2 = ts(18, 0); // 4 hours later

    let items = vec![
        photo("photo1.jpg", b"test1", Some(timestamp1)),
        photo("photo2.jpg", b"test2", Some(timestamp2)),
    ];

    let batches = group_by_temporal_proximity(items, TWO_HOURS);

    assert_eq!(batches.len(), 2, "Should have 2 batches");
    assert_eq!(batches[0].items.len(), 1, "First batch should have 1 item");
    assert_eq!(batches[1].items.len(), 1, "Second batch should have 1 item");
}

#[test]
fn test_group_by_temporal_proximity_three_batches() {
    let timestamp1 = ts(9, 0);
    let timestamp2 = ts(9, 30); // 30 min later (same batch)
    let timestamp3 = ts(14, 0); // 4.5 hours later (new batch)
    let timestamp4 = ts(20, 0); // 6 hours later (new batch)

    let items = vec![
        photo("photo1.jpg", b"test1", Some(timestamp1)),
        photo("photo2.jpg", b"test2", Some(timestamp2)),
        photo("photo3.jpg", b"test3", Some(timestamp3)),
        photo("photo4.jpg", b"test4", Some(timestamp4)),
    ];

    let batches = group_by_temporal_proximity(items, TWO_HOURS);

    assert_eq!(batches.len(), 3, "Should have 3 batches");
    assert_eq!(batches[0].items.len(), 2, "First batch should have 2 items");
    assert_eq!(batches[1].items.len(), 1, "Second batch should have 1 item");
    assert_eq!(batches[2].items.len(), 1, "Third batch should have 1 item");
}

#[test]
fn test_group_by_temporal_proximity_empty() {
    let items: Vec<MediaItem> = vec![];
    let batches = group_by_temporal_proximity(items, TWO_HOURS);

    assert_eq!(batches.len(), 0, "Empty input should produce no batches");
}

#[test]
fn test_group_single_item_gives_one_batch() {
    let t1 = ts(14, 0);
    let items = vec![photo("only.jpg", b"only", Some(t1))];
    let batches = group_by_temporal_proximity(items, TWO_HOURS);
    assert_eq!(batches.len(), 1);
    assert_eq!(batches[0].items.len(), 1);
    assert_eq!(batches[0].start_time, t1);
    assert_eq!(batches[0].end_time, t1);
}

#[test]
fn test_group_all_untimestamped_gives_no_batches() {
    let items = vec![photo("a.jpg", b"a", None), photo("b.jpg", b"b", None)];
    let batches = group_by_temporal_proximity(items, TWO_HOURS);
    assert_eq!(batches.len(), 0);
}

#[test]
fn test_group_gap_exactly_at_threshold_stays_together() {
    // The threshold is exclusive: a gap of exactly t does not split.
    let t1 = ts(14, 0);
    let t2 = ts(16, 0); // exactly 2 hours later
    let items = vec![
        photo("photo1.jpg", b"test1", Some(t1)),
        photo("photo2.jpg", b"test2", Some(t2)),
    ];
    let batches = group_by_temporal_proximity(items, TWO_HOURS);
    assert_eq!(batches.len(), 1);
    assert_eq!(batches[0].items.len(), 2);
}

#[test]
fn test_group_zero_threshold_splits_unequal_keeps_equal() {
    let t1 = ts(14, 0);
    let t2 = ts(14, 0); // equal instant stays with t1
    let t3 = ts(14, 1); // any positive gap splits at threshold zero
    let items = vec![
        photo("photo1.jpg", b"test1", Some(t1)),
        photo("photo2.jpg", b"test2", Some(t2)),
        photo("photo3.jpg", b"test3", Some(t3)),
    ];
    let batches = group_by_temporal_proximity(items, 0);
    assert_eq!(batches.len(), 2);
    assert_eq!(batches[0].items.len(), 2);
    assert_eq!(batches[1].items.len(), 1);
}

#[test]
fn test_group_sorts_unsorted_input() {
    let t1 = ts(9, 0);
    let t2 = ts(9, 30);
    let t3 = ts(14, 0);
    let items = vec![
        photo("late.jpg", b"late", Some(t3)),
        photo("early.jpg", b"early", Some(t1)),
        photo("mid.jpg", b"mid", Some(t2)),
    ];
    let batches = group_by_temporal_proximity(items, TWO_HOURS);
    assert_eq!(batches.len(), 2);
    assert_eq!(batches[0].items.len(), 2);
    assert_eq!(batches[0].items[0].path, "early.jpg");
    assert_eq!(batches[0].items[1].path, "mid.jpg");
    assert_eq!(batches[1].items[0].path, "late.jpg");
}

#[test]
fn test_group_rebatching_is_idempotent() {
    // Re-batching the concatenation of the output batches' items with the
    // same threshold reproduces the same batch boundaries.
    let items = vec![
        photo("photo1.jpg", b"test1", Some(ts(9, 0))),
        photo("photo2.jpg", b"test2", Some(ts(9, 30))),
        photo("photo3.jpg", b"test3", Some(ts(14, 0))),
        photo("photo4.jpg", b"test4", Some(ts(20, 0))),
    ];
    let batches = group_by_temporal_proximity(items, TWO_HOURS);
    let sizes: Vec<usize> = batches.iter().map(|b| b.items.len()).collect();
    let starts: Vec<Timestamp> = batches.iter().map(|b| b.start_time).collect();

    let mut concat: Vec<MediaItem> = Vec::new();
    for b in batches {
        for item in b.items {
            concat.push(item);
        }
    }
    let again = group_by_temporal_proximity(concat, TWO_HOURS);
    let sizes2: Vec<usize> = again.iter().map(|b| b.items.len()).collect();
    let starts2: Vec<Timestamp> = again.iter().map(|b| b.start_time).collect();
    assert_eq!(sizes, sizes2);
    assert_eq!(starts, starts2);
}

#[test]
fn test_group_gap_invariant_on_output() {
    // Every intra-batch consecutive gap is at most t; every inter-batch
    // gap strictly exceeds t.
    let items = vec![
        photo("photo1.jpg", b"test1", Some(ts(9, 0))),
        photo("photo2.jpg", b"test2", Some(ts(10, 30))),
        photo("photo3.jpg", b"test3", Some(ts(11, 0))),
        photo("photo4.jpg", b"test4", Some(ts(16, 0))),
        photo("photo5.jpg", b"test5", Some(ts(16, 30))),
    ];
    let t = TWO_HOURS;
    let batches = group_by_temporal_proximity(items, t);
    for b in &batches {
        for w in b.items.windows(2) {
            let gap = w[1].timestamp.unwrap().epoch_secs() - w[0].timestamp.unwrap().epoch_secs();
            assert!(gap <= t);
        }
    }
    for pair in batches.windows(2) {
        let prev_end = pair[0].items.last().unwrap().timestamp.unwrap().epoch_secs();
        let next_start = pair[1].items[0].timestamp.unwrap().epoch_secs();
        assert!(next_start - prev_end > t);
    }
}

#[test]
fn test_single_batch_spans_all_items() {
    let t1 = ts(9, 0);
    let t2 = ts(20, 0);
    let fallback = ts(12, 0);
    let items = vec![
        photo("b.jpg", b"b", Some(t2)),
        photo("a.jpg", b"a", Some(t1)),
        photo("c.jpg", b"c", None),
    ];
    let b = single_batch(items, fallback);
    assert_eq!(b.items.len(), 3);
    assert_eq!(b.start_time, t1);
    assert_eq!(b.end_time, t2);
}

#[test]
fn test_single_batch_without_timestamps_uses_fallback() {
    let fallback = ts(12, 0);
    let b = single_batch(vec![photo("a.jpg", b"a", None)], fallback);
    assert_eq!(b.start_time, fallback);
    assert_eq!(b.end_time, fallback);
}
