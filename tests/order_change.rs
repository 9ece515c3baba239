use order_sync::detector::OrderChangeDetector;
use order_sync::error::OrderChangeError;
use order_sync::hash::{ContentHash, ContentHashable, StableHasher};
use order_sync::reorder::DataReorderer;
use order_sync::summary::OverallChangeType;

#[derive(Debug, Clone, PartialEq)]
struct TestItem {
    id: i32,
    name: String,
    value: f32,
}

impl ContentHashable for TestItem {
    fn spec_content_hash(&self) -> ContentHash {
        self.content_hash()
    }

    fn content_hash(&self) -> ContentHash {
        let mut hasher = StableHasher::new();
        hasher.write_i32(self.id);
        hasher.write_str(&self.name);
        hasher.write_u32(self.value.to_bits());
        hasher.finish()
    }
}

fn item(id: i32, name: &str, value: f32) -> TestItem {
    TestItem { id, name: name.to_string(), value }
}

fn f32_hash(v: f32) -> ContentHash {
    let mut hasher = StableHasher::new();
    hasher.write_u32(v.to_bits());
    hasher.finish()
}

#[test]
fn test_no_change() {
    let items = vec![item(1, "A", 10.0), item(2, "B", 20.0), item(3, "C", 30.0)];

    let detector = OrderChangeDetector::new(items.clone(), items.clone());
    let report = detector.detect().unwrap();

    assert!(!report.has_changes);
    assert_eq!(report.added_count, 0);
    assert_eq!(report.removed_count, 0);
    assert_eq!(report.order_changed_count, 0);
    assert_eq!(report.unchanged_count, 3);
}

#[test]
fn test_order_only_changed() {
    let old_items = vec![item(1, "A", 10.0), item(2, "B", 20.0), item(3, "C", 30.0)];
    let new_items = vec![item(3, "C", 30.0), item(1, "A", 10.0), item(2, "B", 20.0)];

    let detector = OrderChangeDetector::new(old_items, new_items);
    let report = detector.detect().unwrap();

    assert!(report.has_changes);
    assert_eq!(report.added_count, 0);
    assert_eq!(report.removed_count, 0);
    assert_eq!(report.order_changed_count, 3);
    assert_eq!(report.unchanged_count, 0);
}

#[test]
fn test_content_only_changed() {
    let old_items = vec![item(1, "A", 10.0), item(2, "B", 20.0)];
    let new_items = vec![item(1, "A", 10.0), item(2, "B", 20.0), item(3, "C", 30.0)];

    let detector = OrderChangeDetector::new(old_items, new_items);
    let report = detector.detect().unwrap();

    assert!(report.has_changes);
    assert_eq!(report.added_count, 1);
    assert_eq!(report.removed_count, 0);
}

#[test]
fn test_mixed_changes() {
    let old_items = vec![item(1, "A", 10.0), item(2, "B", 20.0), item(3, "C", 30.0)];
    let new_items = vec![item(3, "C", 30.0), item(1, "A", 10.0), item(4, "D", 40.0)];

    let detector = OrderChangeDetector::new(old_items, new_items);
    let report = detector.detect().unwrap();

    assert!(report.has_changes);
    assert_eq!(report.added_count, 1);
    assert_eq!(report.removed_count, 1);
}

#[test]
fn test_reorder() {
    let items = vec![item(1, "A", 10.0), item(2, "B", 20.0), item(3, "C", 30.0)];
    let target_order = vec![item(3, "C", 30.0), item(1, "A", 10.0), item(2, "B", 20.0)];

    let mut reorderer = DataReorderer::new(items);
    reorderer.reorder(&target_order).unwrap();

    let result = reorderer.into_inner();
    assert_eq!(result[0].id, 3);
    assert_eq!(result[1].id, 1);
    assert_eq!(result[2].id, 2);
}

#[test]
fn test_reorder_length_mismatch() {
    let items = vec![item(1, "A", 10.0), item(2, "B", 20.0)];
    let target_order = vec![item(1, "A", 10.0)];

    let mut reorderer = DataReorderer::new(items);
    let result = reorderer.reorder(&target_order);

    assert!(result.is_err());
    assert!(matches!(result, Err(OrderChangeError::LengthMismatch { .. })));
}

#[test]
fn test_reorder_content_mismatch() {
    let items = vec![item(1, "A", 10.0), item(2, "B", 20.0)];
    let target_order = vec![item(1, "A", 10.0), item(3, "C", 30.0)];

    let mut reorderer = DataReorderer::new(items);
    let result = reorderer.reorder(&target_order);

    assert!(result.is_err());
    assert!(matches!(result, Err(OrderChangeError::ContentMismatch)));
}

#[test]
fn test_content_hashable_string() {
    let s1 = "test";
    let s2 = "test";
    let s3 = "different";

    assert_eq!(s1.content_hash(), s2.content_hash());
    assert_ne!(s1.content_hash(), s3.content_hash());
}

#[test]
fn test_content_hashable_primitives() {
    assert_eq!(42i32.content_hash(), 42i32.content_hash());
    assert_ne!(42i32.content_hash(), 43i32.content_hash());

    assert_eq!(f32_hash(3.14f32), f32_hash(3.14f32));
    assert_ne!(f32_hash(3.14f32), f32_hash(2.71f32));
}

#[test]
fn test_change_summary_order_only() {
    let old_items = vec![item(1, "A", 10.0), item(2, "B", 20.0)];
    let new_items = vec![item(2, "B", 20.0), item(1, "A", 10.0)];

    let detector = OrderChangeDetector::new(old_items, new_items);
    let summary = detector.get_change_summary();

    assert_eq!(summary.change_type, OverallChangeType::OrderOnly);
    assert!(detector.needs_reorder());
    assert!(!detector.needs_full_update());
}

#[test]
fn test_change_summary_no_change() {
    let items = vec![item(1, "A", 10.0)];

    let detector = OrderChangeDetector::new(items.clone(), items);
    let summary = detector.get_change_summary();

    assert_eq!(summary.change_type, OverallChangeType::NoChange);
    assert!(!detector.needs_reorder());
    assert!(!detector.needs_full_update());
}

#[test]
fn test_performance_large_dataset() {
    let old_items: Vec<TestItem> = (0..1000)
        .map(|i| TestItem {
            id: i,
            name: format!("Item{}", i),
            value: i as f32,
        })
        .collect();

    let mut new_items = old_items.clone();
    new_items.reverse();

    let detector = OrderChangeDetector::new(old_items, new_items);
    let report = detector.detect().unwrap();

    assert_eq!(report.items.len(), 1000);
    assert!(report.detection_time_us > 0);
}

#[test]
fn test_hash_stability() {
    let item = item(1, "A", 10.0);
    let hash1 = item.content_hash();
    let hash2 = item.content_hash();

    assert_eq!(hash1, hash2, "Hash should be stable across multiple calls");
}
