//! The vocabulary of change kinds and the report that carries them.

use vstd::prelude::*;

use crate::text::{bool_text, decimal, decimal_u128, push_bool, push_str, string_of};

verus! {

/// How one item changed between the old and the new snapshot.
#[derive(Debug, Clone, Copy, PartialEq, Eq, Structural)]
pub enum ChangeType {
    NoChange,
    ContentChanged,
    OrderChanged,
    Added,
    Removed,
}

/// One classified item with its positions in the two snapshots.
#[derive(Debug, Clone)]
pub struct OrderChangeItem<T> {
    pub item: T,
    pub old_position: Option<usize>,
    pub new_position: Option<usize>,
    pub change_type: ChangeType,
}

impl<T> OrderChangeItem<T> {
    /// What the item's classification says, without the item itself.
    pub open spec fn shape(&self) -> (ChangeType, Option<usize>, Option<usize>) {
        (self.change_type, self.old_position, self.new_position)
    }
}

/// The entries of a list whose kind is `k`, in order.
pub open spec fn of_kind<T>(s: Seq<OrderChangeItem<T>>, k: ChangeType) -> Seq<OrderChangeItem<T>>
    decreases s.len(),
{
    if s.len() == 0 {
        Seq::empty()
    } else if s.last().change_type == k {
        of_kind(s.drop_last(), k).push(s.last())
    } else {
        of_kind(s.drop_last(), k)
    }
}

/// The items carried by a list of entries.
pub open spec fn carried<T>(s: Seq<OrderChangeItem<T>>) -> Seq<T> {
    s.map_values(|e: OrderChangeItem<T>| e.item)
}

/// The values behind a sequence of references.
pub open spec fn derefs<A>(s: Seq<&A>) -> Seq<A> {
    s.map_values(|x: &A| *x)
}

/// The classified result of comparing two snapshots.
#[derive(Debug, Clone)]
pub struct OrderChangeReport<T> {
    pub items: Vec<OrderChangeItem<T>>,
    pub added_count: usize,
    pub removed_count: usize,
    pub content_changed_count: usize,
    pub order_changed_count: usize,
    pub unchanged_count: usize,
    pub has_changes: bool,
    pub detection_time_us: u128,
}

impl<T> OrderChangeReport<T> {
    /// The counts agree with the entries, and `has_changes` with the counts.
    pub open spec fn well_formed(&self) -> bool {
        &&& self.added_count == of_kind(self.items@, ChangeType::Added).len()
        &&& self.removed_count == of_kind(self.items@, ChangeType::Removed).len()
        &&& self.content_changed_count == of_kind(self.items@, ChangeType::ContentChanged).len()
        &&& self.order_changed_count == of_kind(self.items@, ChangeType::OrderChanged).len()
        &&& self.unchanged_count == of_kind(self.items@, ChangeType::NoChange).len()
        &&& self.has_changes == (self.added_count > 0 || self.removed_count > 0
            || self.content_changed_count > 0 || self.order_changed_count > 0)
    }

    fn entries_of_kind(&self, k: ChangeType) -> (r: Vec<&OrderChangeItem<T>>)
        ensures
            derefs(r@) == of_kind(self.items@, k),
    {
        let mut r: Vec<&OrderChangeItem<T>> = Vec::new();
        let mut i: usize = 0;
        while i < self.items.len()
            invariant
                i <= self.items@.len(),
                derefs(r@) == of_kind(self.items@.take(i as int), k),
            decreases self.items@.len() - i,
        {
            assert(self.items@.take(i + 1).drop_last() =~= self.items@.take(i as int));
            if self.items[i].change_type == k {
                r.push(&self.items[i]);
            }
            assert(derefs(r@) =~= of_kind(self.items@.take(i + 1), k));
            i = i + 1;
        }
        assert(self.items@.take(i as int) =~= self.items@);
        assert(derefs(r@) =~= of_kind(self.items@, k));
        r
    }

    fn items_of_kind(&self, k: ChangeType) -> (r: Vec<&T>)
        ensures
            derefs(r@) == carried(of_kind(self.items@, k)),
    {
        let entries = self.entries_of_kind(k);
        let mut r: Vec<&T> = Vec::new();
        let mut i: usize = 0;
        while i < entries.len()
            invariant
                i <= entries@.len(),
                derefs(entries@) == of_kind(self.items@, k),
                derefs(r@) == carried(derefs(entries@).take(i as int)),
            decreases entries@.len() - i,
        {
            assert(carried(derefs(entries@).take(i + 1)) =~= carried(
                derefs(entries@).take(i as int),
            ).push(entries@[i as int].item));
            r.push(&entries[i].item);
            assert(derefs(r@) =~= carried(derefs(entries@).take(i + 1)));
            i = i + 1;
        }
        assert(derefs(entries@).take(i as int) =~= derefs(entries@));
        assert(derefs(r@) =~= carried(derefs(entries@)));
        r
    }

    pub fn get_added_items(&self) -> (r: Vec<&T>)
        ensures
            derefs(r@) == carried(of_kind(self.items@, ChangeType::Added)),
    {
        self.items_of_kind(ChangeType::Added)
    }

    pub fn get_removed_items(&self) -> (r: Vec<&T>)
        ensures
            derefs(r@) == carried(of_kind(self.items@, ChangeType::Removed)),
    {
        self.items_of_kind(ChangeType::Removed)
    }

    pub fn get_content_changed_items(&self) -> (r: Vec<&OrderChangeItem<T>>)
        ensures
            derefs(r@) == of_kind(self.items@, ChangeType::ContentChanged),
    {
        self.entries_of_kind(ChangeType::ContentChanged)
    }

    pub fn get_order_changed_items(&self) -> (r: Vec<&OrderChangeItem<T>>)
        ensures
            derefs(r@) == of_kind(self.items@, ChangeType::OrderChanged),
    {
        self.entries_of_kind(ChangeType::OrderChanged)
    }

    pub fn get_unchanged_items(&self) -> (r: Vec<&T>)
        ensures
            derefs(r@) == carried(of_kind(self.items@, ChangeType::NoChange)),
    {
        self.items_of_kind(ChangeType::NoChange)
    }

    /// Items moved, and none was added, removed or edited.
    pub fn has_only_order_changes(&self) -> (r: bool)
        ensures
            r == (self.added_count == 0 && self.removed_count == 0 && self.content_changed_count
                == 0 && self.order_changed_count > 0),
    {
        self.added_count == 0 && self.removed_count == 0 && self.content_changed_count == 0
            && self.order_changed_count > 0
    }

    /// Something was added, removed or edited, and nothing moved.
    pub fn has_only_content_changes(&self) -> (r: bool)
        ensures
            r == ((self.added_count > 0 || self.removed_count > 0 || self.content_changed_count
                > 0) && self.order_changed_count == 0),
    {
        (self.added_count > 0 || self.removed_count > 0 || self.content_changed_count > 0)
            && self.order_changed_count == 0
    }

    /// Something was added, removed or edited, and something moved.
    pub fn has_mixed_changes(&self) -> (r: bool)
        ensures
            r == ((self.added_count > 0 || self.removed_count > 0 || self.content_changed_count
                > 0) && self.order_changed_count > 0),
    {
        (self.added_count > 0 || self.removed_count > 0 || self.content_changed_count > 0)
            && self.order_changed_count > 0
    }
}

/// The one-line text of a report's counts.
pub open spec fn summary_text<T>(r: OrderChangeReport<T>) -> Seq<char> {
    "OrderChangeReport: added="@ + decimal(r.added_count as nat) + ", removed="@ + decimal(
        r.removed_count as nat,
    ) + ", content_changed="@ + decimal(r.content_changed_count as nat) + ", order_changed="@
        + decimal(r.order_changed_count as nat) + ", unchanged="@ + decimal(
        r.unchanged_count as nat,
    ) + ", has_changes="@ + bool_text(r.has_changes) + ", detection_time_us="@ + decimal(
        r.detection_time_us as nat,
    )
}

impl<T> OrderChangeReport<T> {
    /// The counts, the change flag and the timing, on one line.
    pub fn summary(&self) -> (r: String)
        ensures
            r@ == summary_text(*self),
    {
        let mut v: Vec<char> = Vec::new();
        push_str(&mut v, "OrderChangeReport: added=");
        let mut d = decimal_u128(self.added_count as u128);
        v.append(&mut d);
        push_str(&mut v, ", removed=");
        let mut d = decimal_u128(self.removed_count as u128);
        v.append(&mut d);
        push_str(&mut v, ", content_changed=");
        let mut d = decimal_u128(self.content_changed_count as u128);
        v.append(&mut d);
        push_str(&mut v, ", order_changed=");
        let mut d = decimal_u128(self.order_changed_count as u128);
        v.append(&mut d);
        push_str(&mut v, ", unchanged=");
        let mut d = decimal_u128(self.unchanged_count as u128);
        v.append(&mut d);
        push_str(&mut v, ", has_changes=");
        push_bool(&mut v, self.has_changes);
        push_str(&mut v, ", detection_time_us=");
        let mut d = decimal_u128(self.detection_time_us);
        v.append(&mut d);
        assert(v@ =~= summary_text(*self));
        string_of(&v)
    }
}

impl<T> Default for OrderChangeReport<T> {
    fn default() -> (r: Self)
        ensures
            r.items@.len() == 0,
            r.added_count == 0,
            r.removed_count == 0,
            r.content_changed_count == 0,
            r.order_changed_count == 0,
            r.unchanged_count == 0,
            !r.has_changes,
            r.detection_time_us == 0,
    {
        OrderChangeReport {
            items: Vec::new(),
            added_count: 0,
            removed_count: 0,
            content_changed_count: 0,
            order_changed_count: 0,
            unchanged_count: 0,
            has_changes: false,
            detection_time_us: 0,
        }
    }
}

} // verus!
