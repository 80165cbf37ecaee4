//! Polling cursor, change detection, quality labels and chunked subscribing.

use opcua_tag_browser::{
    effective_batch_size, format_quality, forwards_change, is_change, quality_is_good, refused_positions, server_read_limit,
    subscribe_all, AfterFailedRead, ConnectionWatch, LastSeen, PollCursor, StatusCode, SubscriptionService, MIN_BATCH_SIZE,
};
use std::cell::RefCell;

#[test]
fn batch_size_is_capped_by_the_server() {
    assert_eq!(effective_batch_size(50, Some(20)), 20);
    assert_eq!(effective_batch_size(50, Some(80)), 50);
    assert_eq!(effective_batch_size(50, None), 50);
    assert_eq!(server_read_limit(Some(0)), None);
    assert_eq!(server_read_limit(Some(7)), Some(7));
    assert_eq!(server_read_limit(None), None);
}

#[test]
fn cursor_walks_batches_and_cuts_the_last() {
    let mut cursor = PollCursor::new(25, 10);
    assert_eq!(cursor.batch(), (0, 10));
    cursor.read_succeeded();
    assert_eq!(cursor.batch(), (10, 20));
    cursor.read_succeeded();
    assert_eq!(cursor.batch(), (20, 25));
    assert!(!cursor.pass_done());
    cursor.read_succeeded();
    assert!(cursor.pass_done());
    cursor.restart();
    assert_eq!(cursor.batch(), (0, 10));
}

#[test]
fn failed_reads_halve_then_skip() {
    let mut cursor = PollCursor::new(100, 50);
    assert_eq!(cursor.read_failed(true), AfterFailedRead::Retry);
    assert_eq!(cursor.batch_size(), 25);
    assert_eq!(cursor.batch(), (0, 25));
    assert_eq!(cursor.read_failed(true), AfterFailedRead::Retry);
    assert_eq!(cursor.batch_size(), 12);
    assert_eq!(cursor.read_failed(true), AfterFailedRead::Retry);
    assert_eq!(cursor.batch_size(), MIN_BATCH_SIZE);
    assert_eq!(cursor.read_failed(true), AfterFailedRead::Skip);
    assert_eq!(cursor.batch(), (10, 20));
    assert_eq!(cursor.read_failed(false), AfterFailedRead::Stop);
    assert_eq!(cursor.batch(), (10, 20));
}

#[test]
fn halving_never_goes_below_the_floor() {
    let mut cursor = PollCursor::new(100, 15);
    assert_eq!(cursor.read_failed(true), AfterFailedRead::Retry);
    assert_eq!(cursor.batch_size(), MIN_BATCH_SIZE);
}

fn seen(rendered: &str, quality: &str) -> LastSeen {
    LastSeen { rendered: rendered.to_string(), quality: quality.to_string() }
}

#[test]
fn first_reading_and_quality_changes_are_reported() {
    assert!(is_change(None, "1", "GOOD", None));
    let previous = seen("1", "GOOD");
    assert!(is_change(Some(&previous), "1", "BAD (BadNoData)", None));
    assert!(is_change(Some(&previous), "1", "BAD (BadNoData)", Some(false)));
    assert!(!is_change(Some(&previous), "1", "GOOD", None));
    assert!(is_change(Some(&previous), "2", "GOOD", None));
}

#[test]
fn deadband_decides_numeric_changes() {
    let previous = seen("1.0", "GOOD");
    assert!(!is_change(Some(&previous), "1.2", "GOOD", Some(false)));
    assert!(is_change(Some(&previous), "1.0", "GOOD", Some(true)));
}

#[test]
fn quality_labels() {
    assert_eq!(format_quality(None), "GOOD");
    assert_eq!(format_quality(Some(StatusCode::good())), "GOOD");
    let no_data = format_quality(Some(StatusCode::bad_no_data()));
    assert!(no_data.starts_with("BAD ("), "{no_data}");
    assert!(no_data.contains("BadNoData"), "{no_data}");
    let uncertain = format_quality(Some(StatusCode::new(0x4000_0000)));
    assert!(uncertain.starts_with("UNCERTAIN ("), "{uncertain}");
    assert!(quality_is_good(None));
    assert!(!quality_is_good(Some(StatusCode::bad_no_data())));
}

#[test]
fn refused_positions_follow_item_statuses() {
    let bad = StatusCode::new(0x8034_0000);
    let good = StatusCode::good();
    let ok: Result<Vec<StatusCode>, StatusCode> = Ok(vec![good, bad, good, bad]);
    assert_eq!(refused_positions(100, 4, &ok), vec![101, 103]);
    let short: Result<Vec<StatusCode>, StatusCode> = Ok(vec![bad]);
    assert_eq!(refused_positions(5, 3, &short), vec![5]);
    let failed: Result<Vec<StatusCode>, StatusCode> = Err(bad);
    assert_eq!(refused_positions(7, 3, &failed), vec![7, 8, 9]);
}

/// Answers subscription calls from scripts, recording each batch it is sent.
struct ScriptedService {
    subscriptions: RefCell<Vec<Result<u32, StatusCode>>>,
    items: RefCell<Vec<Result<Vec<StatusCode>, StatusCode>>>,
    sent: RefCell<Vec<Vec<u32>>>,
}

impl ScriptedService {
    fn new(subscriptions: Vec<Result<u32, StatusCode>>, items: Vec<Result<Vec<StatusCode>, StatusCode>>) -> Self {
        ScriptedService {
            subscriptions: RefCell::new(subscriptions),
            items: RefCell::new(items),
            sent: RefCell::new(Vec::new()),
        }
    }
}

impl SubscriptionService for ScriptedService {
    type Request = u32;

    fn create_subscription(&self) -> Result<u32, StatusCode> {
        self.subscriptions.borrow_mut().remove(0)
    }

    fn create_monitored_items(&self, _subscription_id: u32, requests: &[u32]) -> Result<Vec<StatusCode>, StatusCode> {
        self.sent.borrow_mut().push(requests.to_vec());
        self.items.borrow_mut().remove(0)
    }
}

#[test]
fn subscribing_chunks_batches_and_collects_refusals() {
    let bad = StatusCode::new(0x80CC_0000);
    let good = StatusCode::good();
    let service = ScriptedService::new(
        vec![Ok(1), Err(bad), Ok(3)],
        vec![
            Ok(vec![good, bad]),
            Ok(vec![good, good]),
            Err(bad),
            Ok(vec![good]),
        ],
    );
    let requests: Vec<u32> = (0..11).collect();
    let refused = subscribe_all(&service, &requests, 4, 2);
    // Chunk [0,4): batches [0,2) and [2,4); chunk [4,8) has no subscription;
    // chunk [8,11): batches [8,10) fails and [10,11) succeeds.
    assert_eq!(refused, vec![1, 4, 5, 6, 7, 8, 9]);
    assert_eq!(
        *service.sent.borrow(),
        vec![vec![0, 1], vec![2, 3], vec![8, 9], vec![10]]
    );
}

#[test]
fn nothing_refused_when_all_items_are_good() {
    let good = StatusCode::good();
    let service = ScriptedService::new(vec![Ok(1)], vec![Ok(vec![good, good, good])]);
    let requests: Vec<u32> = vec![7, 8, 9];
    assert!(subscribe_all(&service, &requests, 500, 50).is_empty());
}

#[test]
fn only_connection_transitions_are_reported() {
    let mut watch = ConnectionWatch::new(true);
    assert_eq!(watch.observe(true), None);
    assert_eq!(watch.observe(false), Some(false));
    assert_eq!(watch.observe(false), None);
    assert_eq!(watch.observe(true), Some(true));
}

#[test]
fn only_plain_values_of_known_tags_are_forwarded() {
    assert!(forwards_change(true, false, true));
    assert!(!forwards_change(false, false, true));
    assert!(!forwards_change(true, true, true));
    assert!(!forwards_change(true, false, false));
}
