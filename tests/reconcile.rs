use order_sync::detector::{DetectorConfig, OrderChangeDetector};
use order_sync::error::OrderChangeError;
use order_sync::hash::{ContentHash, ContentHashable, StableHasher};
use order_sync::recovery::{ErrorHandler, LogLevel, RecoveryResult, SafeRenderer};
use order_sync::reorder::DataReorderer;
use order_sync::report::ChangeType;
use order_sync::summary::OverallChangeType;

#[derive(Debug, Clone, PartialEq)]
struct Rec {
    id: u64,
    val: u64,
}

impl ContentHashable for Rec {
    fn spec_content_hash(&self) -> ContentHash {
        self.content_hash()
    }

    fn content_hash(&self) -> ContentHash {
        let mut h = StableHasher::new();
        h.write_u64(self.id);
        h.write_u64(self.val);
        h.finish()
    }
}

fn rec(id: u64, val: u64) -> Rec {
    Rec { id, val }
}

#[test]
fn three_records_rotated_are_order_only() {
    let old = vec![rec(1, 10), rec(2, 20), rec(3, 30)];
    let new = vec![rec(3, 30), rec(1, 10), rec(2, 20)];
    let detector = OrderChangeDetector::new(old, new);
    let report = detector.detect().unwrap();
    assert!(report.has_changes);
    assert_eq!(report.order_changed_count, 3);
    assert_eq!(report.added_count, 0);
    assert_eq!(report.removed_count, 0);
    assert_eq!(report.unchanged_count, 0);
    assert_eq!(detector.get_change_summary().change_type, OverallChangeType::OrderOnly);
    let positions: Vec<(Option<usize>, Option<usize>)> =
        report.items.iter().map(|e| (e.old_position, e.new_position)).collect();
    assert_eq!(positions, vec![(Some(2), Some(0)), (Some(0), Some(1)), (Some(1), Some(2))]);
}

#[test]
fn same_snapshot_is_unchanged() {
    let s = vec![rec(1, 1), rec(2, 2), rec(3, 3), rec(4, 4)];
    let report = OrderChangeDetector::new(s.clone(), s).detect().unwrap();
    assert!(!report.has_changes);
    assert_eq!(report.unchanged_count, 4);
    assert_eq!(report.added_count + report.removed_count + report.content_changed_count + report.order_changed_count, 0);
}

#[test]
fn empty_snapshots_have_no_changes() {
    let report = OrderChangeDetector::<Rec>::new(vec![], vec![]).detect().unwrap();
    assert!(!report.has_changes);
    assert!(report.items.is_empty());
}

#[test]
fn permutation_counts_displaced_items() {
    let old = vec![rec(1, 1), rec(2, 2), rec(3, 3), rec(4, 4)];
    let new = vec![rec(2, 2), rec(1, 1), rec(3, 3), rec(4, 4)];
    let detector = OrderChangeDetector::new(old, new);
    let report = detector.detect().unwrap();
    assert_eq!(report.order_changed_count, 2);
    assert_eq!(report.unchanged_count, 2);
    assert_eq!(report.added_count + report.removed_count + report.content_changed_count, 0);
    assert!(detector.needs_reorder());
    assert!(!detector.needs_full_update());
}

#[test]
fn appending_one_item_adds_it() {
    let old = vec![rec(1, 1), rec(2, 2)];
    let mut new = old.clone();
    new.push(rec(9, 9));
    let detector = OrderChangeDetector::new(old, new);
    let report = detector.detect().unwrap();
    assert_eq!(report.added_count, 1);
    assert_eq!(report.unchanged_count, 2);
    assert_eq!(report.items[2].change_type, ChangeType::Added);
    assert_eq!(report.items[2].old_position, None);
    assert_eq!(report.items[2].new_position, Some(2));
    assert_eq!(detector.get_change_summary().change_type, OverallChangeType::ContentOnly);
    assert!(detector.needs_full_update());
}

#[test]
fn dropping_an_item_removes_it_and_moves_the_rest_up() {
    let old = vec![rec(1, 1), rec(2, 2), rec(3, 3)];
    let new = vec![rec(1, 1), rec(3, 3)];
    let report = OrderChangeDetector::new(old, new).detect().unwrap();
    assert_eq!(report.removed_count, 1);
    assert_eq!(report.unchanged_count, 1);
    assert_eq!(report.order_changed_count, 1);
    let last = report.items.last().unwrap();
    assert_eq!(last.change_type, ChangeType::Removed);
    assert_eq!(last.old_position, Some(1));
    assert_eq!(last.new_position, None);
    assert_eq!(report.get_removed_items(), vec![&rec(2, 2)]);
}

#[test]
fn dropping_the_last_item_leaves_the_rest_unchanged() {
    let old = vec![rec(1, 1), rec(2, 2), rec(3, 3)];
    let new = vec![rec(1, 1), rec(2, 2)];
    let report = OrderChangeDetector::new(old, new).detect().unwrap();
    assert_eq!(report.removed_count, 1);
    assert_eq!(report.unchanged_count, 2);
    assert_eq!(report.order_changed_count, 0);
}

#[derive(Debug, Clone)]
struct Keyed {
    key: u64,
    payload: u64,
}

impl PartialEq for Keyed {
    fn eq(&self, other: &Keyed) -> bool {
        self.key == other.key && self.payload == other.payload
    }
}

impl ContentHashable for Keyed {
    fn spec_content_hash(&self) -> ContentHash {
        self.content_hash()
    }

    fn content_hash(&self) -> ContentHash {
        self.key.content_hash()
    }
}

#[test]
fn colliding_fingerprints_with_different_values_are_content_changes() {
    let old = vec![Keyed { key: 1, payload: 1 }, Keyed { key: 2, payload: 2 }];
    let new = vec![Keyed { key: 2, payload: 2 }, Keyed { key: 1, payload: 5 }];
    let report = OrderChangeDetector::new(old, new).detect().unwrap();
    assert_eq!(report.content_changed_count, 1);
    assert_eq!(report.order_changed_count, 1);
    assert_eq!(report.get_content_changed_items()[0].new_position, Some(1));
    assert!(report.has_mixed_changes());
    assert!(!report.has_only_content_changes());
    assert!(!report.has_only_order_changes());
}

#[test]
fn mixed_summary() {
    let old = vec![rec(1, 1), rec(2, 2), rec(3, 3)];
    let new = vec![rec(3, 3), rec(1, 1), rec(4, 4)];
    let summary = OrderChangeDetector::new(old, new).get_change_summary();
    assert_eq!(summary.change_type, OverallChangeType::Mixed);
    assert_eq!(summary.total_items, 4);
    assert_eq!(summary.added_count, 1);
    assert_eq!(summary.removed_count, 1);
    assert_eq!(summary.order_changed_count, 2);
}

#[test]
fn content_only_uses_fingerprint_multisets() {
    let a = vec![rec(1, 1), rec(1, 1), rec(2, 2)];
    let b = vec![rec(1, 1), rec(2, 2), rec(2, 2)];
    let c = vec![rec(2, 2), rec(1, 1), rec(1, 1)];
    assert!(!OrderChangeDetector::new(a.clone(), b).is_content_only_changed());
    let d = OrderChangeDetector::new(a.clone(), c);
    assert!(d.is_content_only_changed());
    assert!(d.is_order_only_changed());
    let e = OrderChangeDetector::new(a.clone(), a);
    assert!(e.is_content_only_changed());
    assert!(!e.is_order_only_changed());
}

#[test]
fn disabled_metrics_record_no_time() {
    let s = vec![rec(1, 1)];
    let config = DetectorConfig { enable_hash_cache: false, enable_performance_metrics: false };
    let report = OrderChangeDetector::new(s.clone(), s).with_config(config).detect().unwrap();
    assert_eq!(report.detection_time_us, 0);
}

#[test]
fn report_getters_and_summary_text() {
    let old = vec![rec(1, 1), rec(2, 2)];
    let new = vec![rec(2, 2), rec(3, 3)];
    let config = DetectorConfig { enable_hash_cache: true, enable_performance_metrics: false };
    let report = OrderChangeDetector::new(old, new).with_config(config).detect().unwrap();
    assert_eq!(report.get_added_items(), vec![&rec(3, 3)]);
    assert_eq!(report.get_removed_items(), vec![&rec(1, 1)]);
    assert_eq!(report.get_order_changed_items().len(), 1);
    assert!(report.get_unchanged_items().is_empty());
    assert_eq!(
        report.summary(),
        "OrderChangeReport: added=1, removed=1, content_changed=0, order_changed=1, unchanged=0, has_changes=true, detection_time_us=0"
    );
}

#[test]
fn reorder_keeps_the_same_objects() {
    let items = vec![rec(1, 10), rec(2, 20), rec(3, 30)];
    let mut r = DataReorderer::new(items);
    r.reorder(&[rec(3, 30), rec(1, 10), rec(2, 20)]).unwrap();
    assert_eq!(r.items(), &[rec(3, 30), rec(1, 10), rec(2, 20)]);
}

#[test]
fn reorder_length_mismatch_reports_both_lengths() {
    let mut r = DataReorderer::new(vec![rec(1, 1), rec(2, 2)]);
    let result = r.reorder(&[rec(1, 1)]);
    assert_eq!(result, Err(OrderChangeError::LengthMismatch { current: 2, target: 1 }));
    assert_eq!(r.items(), &[rec(1, 1), rec(2, 2)]);
}

#[test]
fn reorder_with_a_foreign_item_is_content_mismatch() {
    let mut r = DataReorderer::new(vec![rec(1, 1), rec(2, 2)]);
    assert_eq!(r.reorder(&[rec(2, 2), rec(7, 7)]), Err(OrderChangeError::ContentMismatch));
}

#[test]
fn apply_order_change_follows_the_report() {
    let old = vec![rec(1, 1), rec(2, 2), rec(3, 3)];
    let new = vec![rec(3, 3), rec(2, 2), rec(1, 1)];
    let report = OrderChangeDetector::new(old.clone(), new.clone()).detect().unwrap();
    let mut r = DataReorderer::new(old);
    r.apply_order_change(&report).unwrap();
    assert_eq!(r.into_inner(), new);
}

#[test]
fn hasher_words_follow_the_fnv_step() {
    let mut h = StableHasher::new();
    h.write_u64(0);
    assert_eq!(h.finish(), ContentHash(0xcbf29ce484222325u64.wrapping_mul(0x100000001b3)));
    let mut a = StableHasher::new();
    a.write_bytes(b"abc");
    let mut b = StableHasher::new();
    b.write_u64(u64::from_le_bytes([b'a', b'b', b'c', 0, 0, 0, 0, 0]));
    assert_eq!(a.finish(), b.finish());
    let mut c = StableHasher::new();
    c.write_i32(-1);
    let mut d = StableHasher::new();
    d.write_u64(0xffff_ffff);
    assert_eq!(c.finish(), d.finish());
}

#[test]
fn composite_fingerprints() {
    let v = vec![1u64, 2];
    let mut h = StableHasher::new();
    h.write_u64(1u64.content_hash().0);
    h.write_u64(2u64.content_hash().0);
    assert_eq!(v.content_hash(), h.finish());
    let mut n = StableHasher::new();
    n.write_u64(0);
    assert_eq!(None::<u64>.content_hash(), n.finish());
    assert_ne!(Some(0u64).content_hash(), None::<u64>.content_hash());
    assert_eq!("ab".to_string().content_hash(), "ab".content_hash());
}

#[test]
fn severities() {
    assert!(OrderChangeError::ContentMismatch.is_recoverable());
    assert!(OrderChangeError::ReorderFailed("r".to_string()).is_recoverable());
    assert!(!OrderChangeError::HashCollision.is_recoverable());
    assert!(!OrderChangeError::HashCollision.is_critical());
    assert!(!OrderChangeError::NodeNotFound("n".to_string()).is_recoverable());
    assert!(OrderChangeError::InvalidData("d".to_string()).is_critical());
    assert_eq!(ErrorHandler::log_level(&OrderChangeError::InvalidNodeState("s".to_string())), LogLevel::Error);
    assert_eq!(ErrorHandler::log_level(&OrderChangeError::ContentMismatch), LogLevel::Warning);
}

#[test]
fn error_texts() {
    assert_eq!(
        OrderChangeError::LengthMismatch { current: 12, target: 0 }.to_string(),
        "Length mismatch: current=12 target=0"
    );
    assert_eq!(OrderChangeError::DetectionFailed("x".to_string()).to_string(), "Detection failed: x");
    assert_eq!(OrderChangeError::HashCollision.to_string(), "Hash collision detected");
}

#[test]
fn retries_stop_at_the_budget() {
    let mut renderer = SafeRenderer::new(2);
    let calls = std::cell::Cell::new(0);
    let r: RecoveryResult<u8> = renderer.render_with_retry(|| {
        calls.set(calls.get() + 1);
        Err(OrderChangeError::ReorderFailed("again".to_string()))
    });
    assert!(r.is_failed());
    assert_eq!(calls.get(), 3);
    let again: RecoveryResult<u8> = renderer.render_with_retry(|| {
        calls.set(calls.get() + 1);
        Err(OrderChangeError::ReorderFailed("again".to_string()))
    });
    assert!(again.is_failed());
    assert_eq!(calls.get(), 4);
}

#[test]
fn retries_end_on_success_or_critical_error() {
    let mut renderer = SafeRenderer::default();
    let calls = std::cell::Cell::new(0);
    let r = renderer.render_with_retry(|| {
        calls.set(calls.get() + 1);
        if calls.get() < 2 { Err(OrderChangeError::DetectionFailed("d".to_string())) } else { Ok(7) }
    });
    assert_eq!(r.get_value(), Some(7));
    let f: RecoveryResult<u8> = renderer.render_with_retry(|| Err(OrderChangeError::InvalidData("bad".to_string())));
    assert!(matches!(f, RecoveryResult::Failed(OrderChangeError::InvalidData(_))));
}

#[test]
fn fallback_handler() {
    let ok: Result<i32, OrderChangeError> = Ok(3);
    assert_eq!(ErrorHandler::handle_with_fallback(ok, || 0, "ctx"), 3);
    let err: Result<i32, OrderChangeError> = Err(OrderChangeError::ContentMismatch);
    assert_eq!(ErrorHandler::handle_with_fallback(err, || 9, "ctx"), 9);
}

#[test]
fn exclusive_change_predicates() {
    let old = vec![rec(1, 1), rec(2, 2)];
    let moved = OrderChangeDetector::new(old.clone(), vec![rec(2, 2), rec(1, 1)]).detect().unwrap();
    assert!(moved.has_only_order_changes());
    assert!(!moved.has_only_content_changes());
    assert!(!moved.has_mixed_changes());
    let grown = OrderChangeDetector::new(old.clone(), vec![rec(1, 1), rec(2, 2), rec(3, 3)]).detect().unwrap();
    assert!(grown.has_only_content_changes());
    assert!(!grown.has_only_order_changes());
    assert!(!grown.has_mixed_changes());
}
