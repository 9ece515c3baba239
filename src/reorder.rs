//! Applies a target order to an owned collection, moving (never copying)
//! each item to its new place.

use std::collections::{HashMap, HashSet};
use vstd::prelude::*;

use crate::detector::lemma_push_contains;
use crate::error::OrderChangeError;
use crate::hash::{element_hashes, ContentHashable};
use crate::report::{OrderChangeItem, OrderChangeReport};

verus! {

broadcast use vstd::std_specs::hash::group_hash_axioms;

/// Each fingerprint of a list mapped to the last item that has it.
pub open spec fn last_by_hash<T: ContentHashable>(items: Seq<T>) -> Map<u64, T>
    decreases items.len(),
{
    if items.len() == 0 {
        Map::empty()
    } else {
        last_by_hash(items.drop_last()).insert(items.last().spec_content_hash().0, items.last())
    }
}

/// Walks `order`, taking out of `m` the item of each fingerprint that is
/// still there; fingerprints already taken or never present are skipped.
pub open spec fn pick_in_order<T>(m: Map<u64, T>, order: Seq<u64>) -> Seq<T>
    decreases order.len(),
{
    if order.len() == 0 {
        Seq::empty()
    } else if m.contains_key(order[0]) {
        seq![m[order[0]]] + pick_in_order(m.remove(order[0]), order.drop_first())
    } else {
        pick_in_order(m, order.drop_first())
    }
}

/// The list that results from arranging `items` along the fingerprints `order`.
pub open spec fn arranged<T: ContentHashable>(items: Seq<T>, order: Seq<u64>) -> Seq<T> {
    pick_in_order(last_by_hash(items), order)
}

/// The set of fingerprints of the items of a list.
pub open spec fn fingerprint_set<T: ContentHashable>(items: Seq<T>) -> Set<u64> {
    element_hashes(items).to_set()
}

/// A set holding exactly the fingerprints of `hs`.
fn set_of(hs: &Vec<u64>) -> (r: HashSet<u64>)
    ensures
        forall|h: u64| #[trigger] r@.contains(h) == hs@.contains(h),
{
    let mut r: HashSet<u64> = HashSet::new();
    let mut i: usize = 0;
    while i < hs.len()
        invariant
            i <= hs@.len(),
            forall|h: u64| #[trigger] r@.contains(h) == hs@.take(i as int).contains(h),
        decreases hs@.len() - i,
    {
        let h = hs[i];
        r.insert(h);
        proof {
            assert(hs@.take(i + 1) =~= hs@.take(i as int).push(h));
            assert forall|x: u64| #[trigger] r@.contains(x) == hs@.take(i + 1).contains(x) by {
                lemma_push_contains(hs@.take(i as int), h, x);
            }
        }
        i = i + 1;
    }
    assert(hs@.take(i as int) =~= hs@);
    r
}

/// Whether every fingerprint of `hs` is in `s`.
fn all_in(hs: &Vec<u64>, s: &HashSet<u64>) -> (r: bool)
    ensures
        r == forall|k: int| 0 <= k < hs@.len() ==> s@.contains(#[trigger] hs@[k]),
{
    let mut i: usize = 0;
    while i < hs.len()
        invariant
            i <= hs@.len(),
            forall|k: int| 0 <= k < i ==> s@.contains(#[trigger] hs@[k]),
        decreases hs@.len() - i,
    {
        if !s.contains(&hs[i]) {
            return false;
        }
        i = i + 1;
    }
    true
}

/// Holds an owned collection and rearranges it in place.
pub struct DataReorderer<T> {
    items: Vec<T>,
}

impl<T: ContentHashable + PartialEq + Clone> DataReorderer<T> {
    pub closed spec fn view_items(&self) -> Seq<T> {
        self.items@
    }

    pub fn new(items: Vec<T>) -> (r: Self)
        ensures
            r.view_items() == items@,
    {
        DataReorderer { items }
    }

    /// Rebuilds the collection along the fingerprints `order`, moving items.
    fn rearrange(&mut self, order: &Vec<u64>)
        ensures
            final(self).view_items() == arranged(old(self).view_items(), order@),
    {
        let ghost all = self.items@;
        let mut rest: Vec<T> = Vec::new();
        std::mem::swap(&mut self.items, &mut rest);
        let mut by_hash: HashMap<u64, T> = HashMap::new();
        assert(Map::<u64, T>::empty().union_prefer_right(by_hash@) =~= by_hash@);
        while rest.len() > 0
            invariant
                last_by_hash(all) == last_by_hash(rest@).union_prefer_right(by_hash@),
            decreases rest@.len(),
        {
            let ghost before = rest@;
            let ghost m0 = by_hash@;
            let item = rest.pop().unwrap();
            let h = item.content_hash();
            assert(before.drop_last() =~= rest@);
            if !by_hash.contains_key(&h.0) {
                by_hash.insert(h.0, item);
            }
            assert(last_by_hash(rest@).insert(h.0, before.last()).union_prefer_right(m0)
                =~= last_by_hash(rest@).union_prefer_right(by_hash@));
        }
        assert(rest@ =~= Seq::<T>::empty());
        assert(Map::<u64, T>::empty().union_prefer_right(by_hash@) =~= by_hash@);
        let mut placed: Vec<T> = Vec::new();
        let mut k: usize = 0;
        assert(order@.skip(0) =~= order@);
        while k < order.len()
            invariant
                k <= order@.len(),
                placed@ + pick_in_order(by_hash@, order@.skip(k as int)) == arranged(all, order@),
            decreases order@.len() - k,
        {
            let h = order[k];
            let ghost m0 = by_hash@;
            let ghost tail = order@.skip(k as int);
            assert(tail.drop_first() =~= order@.skip(k + 1));
            let taken = by_hash.remove(&h);
            match taken {
                Some(item) => {
                    assert(by_hash@ =~= m0.remove(h));
                    assert(placed@.push(item) + pick_in_order(by_hash@, order@.skip(k + 1)) =~= placed@
                        + pick_in_order(m0, tail));
                    placed.push(item);
                },
                None => {
                    assert(by_hash@ =~= m0);
                },
            }
            k = k + 1;
        }
        assert(order@.skip(k as int) =~= Seq::<u64>::empty());
        assert(placed@ + Seq::<T>::empty() =~= placed@);
        self.items = placed;
    }

    /// Puts the items in the order of `target_order`, matched by fingerprint.
    pub fn reorder(&mut self, target_order: &[T]) -> (r: Result<(), OrderChangeError>)
        ensures
            target_order@.len() != old(self).view_items().len() <==> r == Err::<(), OrderChangeError>(
                OrderChangeError::LengthMismatch {
                    current: old(self).view_items().len() as usize,
                    target: target_order@.len() as usize,
                },
            ),
            target_order@.len() == old(self).view_items().len() && fingerprint_set(target_order@)
                != fingerprint_set(old(self).view_items()) <==> r == Err::<(), OrderChangeError>(
                OrderChangeError::ContentMismatch,
            ),
            target_order@.len() == old(self).view_items().len() && fingerprint_set(target_order@)
                == fingerprint_set(old(self).view_items()) ==> r is Ok,
            r is Ok ==> final(self).view_items() == arranged(
                old(self).view_items(),
                element_hashes(target_order@),
            ),
            r is Err ==> final(self).view_items() == old(self).view_items(),
    {
        let mut target_hashes: Vec<u64> = Vec::new();
        let mut i: usize = 0;
        while i < target_order.len()
            invariant
                i <= target_order@.len(),
                target_hashes@ == element_hashes(target_order@).take(i as int),
            decreases target_order@.len() - i,
        {
            let h = target_order[i].content_hash();
            target_hashes.push(h.0);
            i = i + 1;
            assert(target_hashes@ =~= element_hashes(target_order@).take(i as int));
        }
        assert(element_hashes(target_order@).take(i as int) =~= element_hashes(target_order@));
        let mut current_hashes: Vec<u64> = Vec::new();
        let mut i: usize = 0;
        while i < self.items.len()
            invariant
                i <= self.items@.len(),
                current_hashes@ == element_hashes(self.items@).take(i as int),
            decreases self.items@.len() - i,
        {
            let h = self.items[i].content_hash();
            current_hashes.push(h.0);
            i = i + 1;
            assert(current_hashes@ =~= element_hashes(self.items@).take(i as int));
        }
        assert(element_hashes(self.items@).take(i as int) =~= element_hashes(self.items@));
        if target_hashes.len() != current_hashes.len() {
            return Err(
                OrderChangeError::LengthMismatch {
                    current: current_hashes.len(),
                    target: target_hashes.len(),
                },
            );
        }
        let target_set = set_of(&target_hashes);
        let current_set = set_of(&current_hashes);
        let first = all_in(&target_hashes, &current_set);
        let same = first && all_in(&current_hashes, &target_set);
        proof {
            let ts = fingerprint_set(target_order@);
            let cs = fingerprint_set(self.items@);
            if same {
                assert forall|h: u64| ts.contains(h) == cs.contains(h) by {
                    if target_hashes@.contains(h) {
                        let k = choose|k: int| 0 <= k < target_hashes@.len() && target_hashes@[k] == h;
                        assert(current_set@.contains(target_hashes@[k]));
                    }
                    if current_hashes@.contains(h) {
                        let k = choose|k: int| 0 <= k < current_hashes@.len() && current_hashes@[k] == h;
                        assert(target_set@.contains(current_hashes@[k]));
                    }
                }
                assert(ts =~= cs);
            } else {
                if !first {
                    let k = choose|k: int|
                        0 <= k < target_hashes@.len() && !current_set@.contains(
                            #[trigger] target_hashes@[k],
                        );
                    assert(ts.contains(target_hashes@[k]));
                } else {
                    let k = choose|k: int|
                        0 <= k < current_hashes@.len() && !target_set@.contains(
                            #[trigger] current_hashes@[k],
                        );
                    assert(cs.contains(current_hashes@[k]));
                }
                assert(ts != cs);
            }
        }
        if !same {
            return Err(OrderChangeError::ContentMismatch);
        }
        self.rearrange(&target_hashes);
        Ok(())
    }

    /// Puts the items in the order of a report's entries, matched by the
    /// fingerprint of each entry's item.
    pub fn apply_order_change(&mut self, report: &OrderChangeReport<T>) -> (r: Result<(), OrderChangeError>)
        ensures
            r is Ok,
            final(self).view_items() == arranged(
                old(self).view_items(),
                element_hashes(report.items@.map_values(|e: OrderChangeItem<T>| e.item)),
            ),
    {
        let ghost carried = report.items@.map_values(|e: OrderChangeItem<T>| e.item);
        let mut order: Vec<u64> = Vec::new();
        let mut i: usize = 0;
        while i < report.items.len()
            invariant
                i <= report.items@.len(),
                carried == report.items@.map_values(|e: OrderChangeItem<T>| e.item),
                order@ == element_hashes(carried).take(i as int),
            decreases report.items@.len() - i,
        {
            let h = report.items[i].item.content_hash();
            order.push(h.0);
            i = i + 1;
            assert(order@ =~= element_hashes(carried).take(i as int));
        }
        assert(element_hashes(carried).take(i as int) =~= element_hashes(carried));
        self.rearrange(&order);
        Ok(())
    }

    pub fn into_inner(self) -> (r: Vec<T>)
        ensures
            r@ == self.view_items(),
    {
        self.items
    }

    pub fn items(&self) -> (r: &[T])
        ensures
            r@ == self.view_items(),
    {
        self.items.as_slice()
    }
}

} // verus!
