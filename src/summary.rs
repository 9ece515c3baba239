//! A coarse view of a detection: which kinds of change occurred.

use vstd::pervasive::unreached;
use vstd::prelude::*;
use vstd::std_specs::cmp::PartialEqSpec;

use crate::detector::{expected_changes, order_only, same_content, shapes, OrderChangeDetector};
use crate::hash::ContentHashable;
use crate::report::{of_kind, ChangeType, OrderChangeItem};

verus! {

/// The overall character of a change between two snapshots.
#[derive(Debug, Clone, Copy, PartialEq, Eq, Structural)]
pub enum OverallChangeType {
    NoChange,
    OrderOnly,
    ContentOnly,
    Mixed,
}

/// The counts of a detection and its overall character.
#[derive(Debug, Clone)]
pub struct ChangeSummary {
    pub total_items: usize,
    pub added_count: usize,
    pub removed_count: usize,
    pub content_changed_count: usize,
    pub order_changed_count: usize,
    pub unchanged_count: usize,
    pub change_type: OverallChangeType,
}

/// Nothing changed; only moves; no moves but other changes; or both.
pub open spec fn overall(added: nat, removed: nat, content: nat, order: nat) -> OverallChangeType {
    if added == 0 && removed == 0 && content == 0 && order == 0 {
        OverallChangeType::NoChange
    } else if added == 0 && removed == 0 && content == 0 {
        OverallChangeType::OrderOnly
    } else if order == 0 {
        OverallChangeType::ContentOnly
    } else {
        OverallChangeType::Mixed
    }
}

/// How many entries of a list of classifications have kind `k`.
pub open spec fn kind_count(s: Seq<(ChangeType, Option<usize>, Option<usize>)>, k: ChangeType) -> nat
    decreases s.len(),
{
    if s.len() == 0 {
        0
    } else {
        kind_count(s.drop_last(), k) + if s.last().0 == k {
            1nat
        } else {
            0nat
        }
    }
}

/// The summary that the expected entries of two snapshots give.
pub open spec fn expected_summary<T: ContentHashable + PartialEq>(old: Seq<T>, new: Seq<T>) -> ChangeSummary {
    let e = expected_changes(old, new);
    ChangeSummary {
        total_items: e.len() as usize,
        added_count: kind_count(e, ChangeType::Added) as usize,
        removed_count: kind_count(e, ChangeType::Removed) as usize,
        content_changed_count: kind_count(e, ChangeType::ContentChanged) as usize,
        order_changed_count: kind_count(e, ChangeType::OrderChanged) as usize,
        unchanged_count: kind_count(e, ChangeType::NoChange) as usize,
        change_type: overall(
            kind_count(e, ChangeType::Added),
            kind_count(e, ChangeType::Removed),
            kind_count(e, ChangeType::ContentChanged),
            kind_count(e, ChangeType::OrderChanged),
        ),
    }
}

pub proof fn lemma_kind_count_of_kind<T>(s: Seq<OrderChangeItem<T>>, k: ChangeType)
    ensures
        of_kind(s, k).len() == kind_count(shapes(s), k),
    decreases s.len(),
{
    if s.len() > 0 {
        lemma_kind_count_of_kind(s.drop_last(), k);
        assert(shapes(s).drop_last() =~= shapes(s.drop_last()));
    }
}

impl<T: ContentHashable + PartialEq + Clone> OrderChangeDetector<T> {
    /// Runs a detection and reduces it to counts and an overall character.
    pub fn get_change_summary(&self) -> (r: ChangeSummary)
        ensures
            r.change_type == overall(
                r.added_count as nat,
                r.removed_count as nat,
                r.content_changed_count as nat,
                r.order_changed_count as nat,
            ),
            T::obeys_eq_spec() ==> r == expected_summary(self.old_items(), self.new_items()),
    {
        let report = match self.detect() {
            Ok(rep) => rep,
            Err(_) => unreached(),
        };
        proof {
            lemma_kind_count_of_kind(report.items@, ChangeType::Added);
            lemma_kind_count_of_kind(report.items@, ChangeType::Removed);
            lemma_kind_count_of_kind(report.items@, ChangeType::ContentChanged);
            lemma_kind_count_of_kind(report.items@, ChangeType::OrderChanged);
            lemma_kind_count_of_kind(report.items@, ChangeType::NoChange);
        }
        let change_type = if report.added_count == 0 && report.removed_count == 0
            && report.content_changed_count == 0 && report.order_changed_count == 0 {
            OverallChangeType::NoChange
        } else if report.added_count == 0 && report.removed_count == 0
            && report.content_changed_count == 0 {
            OverallChangeType::OrderOnly
        } else if report.order_changed_count == 0 {
            OverallChangeType::ContentOnly
        } else {
            OverallChangeType::Mixed
        };
        ChangeSummary {
            total_items: report.items.len(),
            added_count: report.added_count,
            removed_count: report.removed_count,
            content_changed_count: report.content_changed_count,
            order_changed_count: report.order_changed_count,
            unchanged_count: report.unchanged_count,
            change_type,
        }
    }

    /// A cheap in-place move suffices.
    pub fn needs_reorder(&self) -> (r: bool)
        ensures
            r == order_only(self.old_items(), self.new_items()),
    {
        self.is_order_only_changed()
    }

    /// The content differs: a full rebuild is needed.
    pub fn needs_full_update(&self) -> (r: bool)
        ensures
            r == !same_content(self.old_items(), self.new_items()),
    {
        !self.is_content_only_changed()
    }
}

} // verus!
