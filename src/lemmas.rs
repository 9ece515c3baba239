//! What detection yields on snapshots related in simple ways (the same
//! snapshot twice, a permutation, one item appended, one item dropped), the
//! order of its entries, and what reordering does with distinct fingerprints.

use vstd::prelude::*;
use vstd::std_specs::cmp::PartialEqSpec;

use crate::detector::{
    expected_changes, last_index, lemma_push_contains, new_entry, new_part, removed_entry,
    removed_part, shapes,
};
use crate::hash::{element_hashes, ContentHashable};
use crate::report::{ChangeType, OrderChangeReport};
use crate::reorder::{arranged, fingerprint_set, last_by_hash, pick_in_order};
use crate::summary::{expected_summary, kind_count, lemma_kind_count_of_kind, OverallChangeType};

verus! {

/// No fingerprint occurs twice.
pub open spec fn distinct_fingerprints<T: ContentHashable>(s: Seq<T>) -> bool {
    element_hashes(s).no_duplicates()
}

/// Every item equals itself under the type's `==`.
pub open spec fn reflexive_on<T: PartialEq>(s: Seq<T>) -> bool {
    forall|i: int| 0 <= i < s.len() ==> #[trigger] s[i].eq_spec(&s[i])
}

/// The entry that says the item at `j` stayed at `j`.
pub open spec fn stayed(j: int) -> (ChangeType, Option<usize>, Option<usize>) {
    (ChangeType::NoChange, Some(j as usize), Some(j as usize))
}

proof fn lemma_last_index_distinct(hs: Seq<u64>, j: int)
    requires
        hs.no_duplicates(),
        0 <= j < hs.len(),
    ensures
        last_index(hs, hs[j]) == j,
    decreases hs.len(),
{
    if j < hs.len() - 1 {
        assert(hs.last() != hs[j]);
        assert(hs.drop_last()[j] == hs[j]);
        lemma_last_index_distinct(hs.drop_last(), j);
    }
}

proof fn lemma_contains_at(hs: Seq<u64>, j: int)
    requires
        0 <= j < hs.len(),
    ensures
        hs.contains(hs[j]),
{
}

proof fn lemma_kind_count_stayed(n: nat, k: ChangeType)
    ensures
        kind_count(Seq::new(n, |j: int| stayed(j)), k) == if k == ChangeType::NoChange {
            n
        } else {
            0
        },
    decreases n,
{
    if n > 0 {
        lemma_kind_count_stayed((n - 1) as nat, k);
        assert(Seq::new(n, |j: int| stayed(j)).drop_last() =~= Seq::new(
            (n - 1) as nat,
            |j: int| stayed(j),
        ));
    }
}

/// The entry of the new item at `j` that is the old item at `op`.
pub open spec fn matched(op: int, j: int) -> (ChangeType, Option<usize>, Option<usize>) {
    (
        if op != j {
            ChangeType::OrderChanged
        } else {
            ChangeType::NoChange
        },
        Some(op as usize),
        Some(j as usize),
    )
}

proof fn lemma_new_part_mapped<T: ContentHashable + PartialEq>(
    old: Seq<T>,
    new: Seq<T>,
    p: spec_fn(int) -> int,
    j: int,
)
    requires
        distinct_fingerprints(old),
        reflexive_on(old),
        0 <= j <= new.len(),
        forall|k: int| 0 <= k < j ==> 0 <= #[trigger] p(k) < old.len() && new[k] == old[p(k)],
    ensures
        new_part(old, new, j) == Seq::new(j as nat, |k: int| matched(p(k), k)),
    decreases j,
{
    if j > 0 {
        lemma_new_part_mapped(old, new, p, j - 1);
        let ho = element_hashes(old);
        let op = p(j - 1);
        assert(element_hashes(new)[j - 1] == ho[op]);
        lemma_contains_at(ho, op);
        lemma_last_index_distinct(ho, op);
        assert(old[op].eq_spec(&old[op]));
        assert(new_entry(old, new, j - 1) =~= seq![matched(op, j - 1)]);
        assert(new_part(old, new, j) =~= Seq::new(j as nat, |k: int| matched(p(k), k)));
    }
}

proof fn lemma_removed_part_none<T: ContentHashable>(old: Seq<T>, new: Seq<T>, i: int)
    requires
        0 <= i <= old.len(),
        forall|m: int| 0 <= m < old.len() ==> element_hashes(new).contains(#[trigger] element_hashes(old)[m]),
    ensures
        removed_part(old, new, i) == Seq::<(ChangeType, Option<usize>, Option<usize>)>::empty(),
    decreases i,
{
    if i > 0 {
        lemma_removed_part_none(old, new, i - 1);
        assert(element_hashes(new).contains(element_hashes(old)[i - 1]));
        assert(removed_entry(old, new, i - 1) =~= Seq::empty());
        assert(removed_part(old, new, i) =~= Seq::empty());
    }
}

/// Comparing a snapshot with itself finds every item unchanged and nothing
/// else, provided no fingerprint repeats and every item equals itself.
pub proof fn lemma_detect_idempotent<T: ContentHashable + PartialEq>(s: Seq<T>)
    requires
        distinct_fingerprints(s),
        reflexive_on(s),
    ensures
        expected_changes(s, s) == Seq::new(s.len(), |j: int| stayed(j)),
        kind_count(expected_changes(s, s), ChangeType::NoChange) == s.len(),
        kind_count(expected_changes(s, s), ChangeType::Added) == 0,
        kind_count(expected_changes(s, s), ChangeType::Removed) == 0,
        kind_count(expected_changes(s, s), ChangeType::ContentChanged) == 0,
        kind_count(expected_changes(s, s), ChangeType::OrderChanged) == 0,
        expected_summary(s, s).change_type == OverallChangeType::NoChange,
{
    let id = |k: int| k;
    lemma_new_part_mapped(s, s, id, s.len() as int);
    assert(Seq::new(s.len(), |k: int| matched(id(k), k)) =~= Seq::new(s.len(), |j: int| stayed(j)));
    assert forall|m: int| 0 <= m < s.len() implies element_hashes(s).contains(
        #[trigger] element_hashes(s)[m],
    ) by {
        lemma_contains_at(element_hashes(s), m);
    }
    lemma_removed_part_none(s, s, s.len() as int);
    assert(expected_changes(s, s) =~= Seq::new(s.len(), |j: int| stayed(j)));
    lemma_kind_count_stayed(s.len(), ChangeType::NoChange);
    lemma_kind_count_stayed(s.len(), ChangeType::Added);
    lemma_kind_count_stayed(s.len(), ChangeType::Removed);
    lemma_kind_count_stayed(s.len(), ChangeType::ContentChanged);
    lemma_kind_count_stayed(s.len(), ChangeType::OrderChanged);
}

/// How many of the first `n` indices `p` moves elsewhere.
pub open spec fn moved(p: spec_fn(int) -> int, n: nat) -> nat
    decreases n,
{
    if n == 0 {
        0
    } else {
        moved(p, (n - 1) as nat) + if p(n - 1) != n - 1 {
            1nat
        } else {
            0nat
        }
    }
}

/// How many indices a permutation, given as the old index of each new
/// index, does not keep in place.
pub open spec fn displaced(perm: Seq<int>) -> nat {
    moved(|k: int| perm[k], perm.len())
}

proof fn lemma_kind_count_matched(p: spec_fn(int) -> int, n: nat, kind: ChangeType)
    ensures
        kind_count(Seq::new(n, |k: int| matched(p(k), k)), kind) == if kind
            == ChangeType::OrderChanged {
            moved(p, n) as int
        } else if kind == ChangeType::NoChange {
            n - moved(p, n)
        } else {
            0
        },
        moved(p, n) <= n,
    decreases n,
{
    if n > 0 {
        lemma_kind_count_matched(p, (n - 1) as nat, kind);
        assert(Seq::new(n, |k: int| matched(p(k), k)).drop_last() =~= Seq::new(
            (n - 1) as nat,
            |k: int| matched(p(k), k),
        ));
    }
}

proof fn lemma_kind_count_push(
    s: Seq<(ChangeType, Option<usize>, Option<usize>)>,
    e: (ChangeType, Option<usize>, Option<usize>),
    kind: ChangeType,
)
    ensures
        kind_count(s.push(e), kind) == kind_count(s, kind) + if e.0 == kind {
            1nat
        } else {
            0nat
        },
{
    assert(s.push(e).drop_last() =~= s);
}

proof fn lemma_moved_none(n: nat)
    ensures
        moved(|k: int| k, n) == 0,
    decreases n,
{
    if n > 0 {
        lemma_moved_none((n - 1) as nat);
    }
}

/// Appending one item whose fingerprint is new finds that item added and
/// every earlier item unchanged, provided no fingerprint of `old` repeats
/// and every item equals itself.
pub proof fn lemma_detect_append<T: ContentHashable + PartialEq>(old: Seq<T>, x: T)
    requires
        distinct_fingerprints(old),
        reflexive_on(old),
        !element_hashes(old).contains(x.spec_content_hash().0),
    ensures
        expected_changes(old, old.push(x)) == Seq::new(old.len(), |j: int| stayed(j)).push(
            (ChangeType::Added, None, Some(old.len() as usize)),
        ),
        kind_count(expected_changes(old, old.push(x)), ChangeType::Added) == 1,
        kind_count(expected_changes(old, old.push(x)), ChangeType::NoChange) == old.len(),
        kind_count(expected_changes(old, old.push(x)), ChangeType::Removed) == 0,
        kind_count(expected_changes(old, old.push(x)), ChangeType::ContentChanged) == 0,
        kind_count(expected_changes(old, old.push(x)), ChangeType::OrderChanged) == 0,
        expected_summary(old, old.push(x)).change_type == OverallChangeType::ContentOnly,
{
    let new = old.push(x);
    let n = old.len();
    let ho = element_hashes(old);
    let hn = element_hashes(new);
    let id = |k: int| k;
    lemma_new_part_mapped(old, new, id, n as int);
    assert(Seq::new(n, |k: int| matched(id(k), k)) =~= Seq::new(n, |j: int| stayed(j)));
    assert(hn.take(n as int) =~= ho);
    assert(hn[n as int] == x.spec_content_hash().0);
    assert(new_entry(old, new, n as int) =~= seq![(ChangeType::Added, None, Some(n as usize))]);
    assert(new_part(old, new, n as int + 1) == new_part(old, new, n as int) + new_entry(old, new, n as int));
    assert forall|m: int| 0 <= m < old.len() implies hn.contains(#[trigger] ho[m]) by {
        assert(hn[m] == ho[m]);
        lemma_contains_at(hn, m);
    }
    lemma_removed_part_none(old, new, n as int);
    let front = Seq::new(n, |j: int| stayed(j));
    let added = (ChangeType::Added, None, Some(n as usize));
    assert(expected_changes(old, new) =~= front.push(added));
    lemma_kind_count_stayed(n, ChangeType::NoChange);
    lemma_kind_count_stayed(n, ChangeType::Added);
    lemma_kind_count_stayed(n, ChangeType::Removed);
    lemma_kind_count_stayed(n, ChangeType::ContentChanged);
    lemma_kind_count_stayed(n, ChangeType::OrderChanged);
    lemma_kind_count_push(front, added, ChangeType::NoChange);
    lemma_kind_count_push(front, added, ChangeType::Added);
    lemma_kind_count_push(front, added, ChangeType::Removed);
    lemma_kind_count_push(front, added, ChangeType::ContentChanged);
    lemma_kind_count_push(front, added, ChangeType::OrderChanged);
}

/// The old index of the item now at `j`, after the item at `k` was dropped.
pub open spec fn after_drop(k: int, j: int) -> int {
    if j < k {
        j
    } else {
        j + 1
    }
}

proof fn lemma_moved_after_drop(k: int, m: nat)
    requires
        0 <= k,
    ensures
        moved(|j: int| after_drop(k, j), m) == if m <= k {
            0
        } else {
            m - k
        },
    decreases m,
{
    if m > 0 {
        lemma_moved_after_drop(k, (m - 1) as nat);
    }
}

/// Dropping the item at index `k` finds it removed, the items before it
/// unchanged and each item after it moved one place up (a position is
/// compared per item with its own old index), provided no fingerprint of
/// `old` repeats and every item equals itself.
pub proof fn lemma_detect_drop<T: ContentHashable + PartialEq>(old: Seq<T>, k: int)
    requires
        distinct_fingerprints(old),
        reflexive_on(old),
        0 <= k < old.len(),
    ensures
        expected_changes(old, old.remove(k)) == Seq::new(
            (old.len() - 1) as nat,
            |j: int| matched(after_drop(k, j), j),
        ).push((ChangeType::Removed, Some(k as usize), None)),
        kind_count(expected_changes(old, old.remove(k)), ChangeType::Removed) == 1,
        kind_count(expected_changes(old, old.remove(k)), ChangeType::NoChange) == k,
        kind_count(expected_changes(old, old.remove(k)), ChangeType::OrderChanged) == old.len()
            - 1 - k,
        kind_count(expected_changes(old, old.remove(k)), ChangeType::Added) == 0,
        kind_count(expected_changes(old, old.remove(k)), ChangeType::ContentChanged) == 0,
{
    let new = old.remove(k);
    let n = old.len();
    let ho = element_hashes(old);
    let hn = element_hashes(new);
    let p = |j: int| after_drop(k, j);
    assert forall|j: int| 0 <= j < n - 1 implies 0 <= #[trigger] p(j) < old.len() && new[j] == old[p(
        j,
    )] by {}
    lemma_new_part_mapped(old, new, p, n - 1);
    assert forall|i: int| 0 <= i <= n implies removed_part(old, new, i) == if i <= k {
        Seq::<(ChangeType, Option<usize>, Option<usize>)>::empty()
    } else {
        seq![(ChangeType::Removed, Some(k as usize), None)]
    } by {
        lemma_removed_part_upto(old, k, i);
    }
    let front = Seq::new((n - 1) as nat, |j: int| matched(p(j), j));
    let gone = (ChangeType::Removed, Some(k as usize), None);
    assert(expected_changes(old, new) =~= front.push(gone));
    lemma_moved_after_drop(k, (n - 1) as nat);
    lemma_kind_count_matched(p, (n - 1) as nat, ChangeType::NoChange);
    lemma_kind_count_matched(p, (n - 1) as nat, ChangeType::Added);
    lemma_kind_count_matched(p, (n - 1) as nat, ChangeType::Removed);
    lemma_kind_count_matched(p, (n - 1) as nat, ChangeType::ContentChanged);
    lemma_kind_count_matched(p, (n - 1) as nat, ChangeType::OrderChanged);
    lemma_kind_count_push(front, gone, ChangeType::NoChange);
    lemma_kind_count_push(front, gone, ChangeType::Added);
    lemma_kind_count_push(front, gone, ChangeType::Removed);
    lemma_kind_count_push(front, gone, ChangeType::ContentChanged);
    lemma_kind_count_push(front, gone, ChangeType::OrderChanged);
}

proof fn lemma_removed_part_upto<T: ContentHashable>(old: Seq<T>, k: int, i: int)
    requires
        distinct_fingerprints(old),
        0 <= k < old.len(),
        0 <= i <= old.len(),
    ensures
        removed_part(old, old.remove(k), i) == if i <= k {
            Seq::<(ChangeType, Option<usize>, Option<usize>)>::empty()
        } else {
            seq![(ChangeType::Removed, Some(k as usize), None)]
        },
    decreases i,
{
    let new = old.remove(k);
    let ho = element_hashes(old);
    let hn = element_hashes(new);
    if i > 0 {
        lemma_removed_part_upto(old, k, i - 1);
        let m = i - 1;
        if m == k {
            if hn.contains(ho[k]) {
                let t = choose|t: int| 0 <= t < hn.len() && hn[t] == ho[k];
                assert(hn[t] == ho[after_drop(k, t)]);
            }
            if ho.take(k).contains(ho[k]) {
                let t = choose|t: int| 0 <= t < k && ho.take(k)[t] == ho[k];
                assert(ho[t] == ho[k]);
            }
            assert(removed_entry(old, new, m) =~= seq![(ChangeType::Removed, Some(k as usize), None)]);
        } else {
            let t = if m < k { m } else { m - 1 };
            assert(hn[t] == ho[m]);
            lemma_contains_at(hn, t);
            assert(removed_entry(old, new, m) =~= Seq::empty());
        }
        assert(removed_part(old, new, i) =~= removed_part(old, new, i - 1) + removed_entry(old, new, m));
    }
}

/// A permutation of a snapshot without value changes finds nothing added,
/// removed or edited, and as many moves as the permutation displaces
/// indices, which are the indices whose value changed (an overall
/// `OrderOnly` when the snapshots differ), provided no
/// fingerprint repeats and every item equals itself.  `perm[j]` is the old
/// index of the item at new index `j`.
pub proof fn lemma_detect_permutation<T: ContentHashable + PartialEq>(
    old: Seq<T>,
    new: Seq<T>,
    perm: Seq<int>,
)
    requires
        distinct_fingerprints(old),
        reflexive_on(old),
        perm.len() == old.len(),
        new.len() == old.len(),
        forall|j: int| 0 <= j < perm.len() ==> 0 <= #[trigger] perm[j] < old.len() && new[j] == old[perm[j]],
        forall|i: int| 0 <= i < old.len() ==> #[trigger] perm.contains(i),
    ensures
        expected_changes(old, new) == Seq::new(new.len(), |j: int| matched(perm[j], j)),
        kind_count(expected_changes(old, new), ChangeType::Added) == 0,
        kind_count(expected_changes(old, new), ChangeType::Removed) == 0,
        kind_count(expected_changes(old, new), ChangeType::ContentChanged) == 0,
        kind_count(expected_changes(old, new), ChangeType::OrderChanged) == displaced(perm),
        displaced(perm) == changed_slots(old, new, new.len() as int),
        kind_count(expected_changes(old, new), ChangeType::NoChange) == new.len() - displaced(perm),
        displaced(perm) > 0 ==> expected_summary(old, new).change_type
            == OverallChangeType::OrderOnly,
        new != old ==> expected_summary(old, new).change_type == OverallChangeType::OrderOnly,
{
    let n = old.len();
    let ho = element_hashes(old);
    let hn = element_hashes(new);
    let p = |k: int| perm[k];
    assert forall|j: int| 0 <= j < n implies 0 <= #[trigger] p(j) < old.len() && new[j] == old[p(j)] by {
        assert(0 <= perm[j] < old.len());
    }
    lemma_new_part_mapped(old, new, p, n as int);
    assert forall|m: int| 0 <= m < old.len() implies hn.contains(#[trigger] ho[m]) by {
        assert(perm.contains(m));
        let j = choose|j: int| 0 <= j < perm.len() && perm[j] == m;
        assert(hn[j] == ho[m]);
        lemma_contains_at(hn, j);
    }
    lemma_removed_part_none(old, new, n as int);
    assert(Seq::new(n, |k: int| matched(p(k), k)) =~= Seq::new(new.len(), |j: int| matched(perm[j], j)));
    assert(expected_changes(old, new) =~= Seq::new(new.len(), |j: int| matched(perm[j], j)));
    lemma_kind_count_matched(p, n, ChangeType::Added);
    lemma_kind_count_matched(p, n, ChangeType::Removed);
    lemma_kind_count_matched(p, n, ChangeType::ContentChanged);
    lemma_kind_count_matched(p, n, ChangeType::OrderChanged);
    lemma_kind_count_matched(p, n, ChangeType::NoChange);
    lemma_changed_slots(old, new, perm, n as int);
    if new != old {
        assert(exists|j: int| 0 <= j < n && new[j] != old[j]) by {
            if forall|j: int| 0 <= j < n ==> new[j] == old[j] {
                assert(new =~= old);
            }
        }
        let j = choose|j: int| 0 <= j < n && new[j] != old[j];
        lemma_changed_slots_positive(old, new, j, n as int);
    }
}

/// How many of the first `n` indices hold a different value in `new` than
/// in `old`.
pub open spec fn changed_slots<T>(old: Seq<T>, new: Seq<T>, n: int) -> nat
    decreases n,
{
    if n <= 0 {
        0
    } else {
        changed_slots(old, new, n - 1) + if new[n - 1] != old[n - 1] {
            1nat
        } else {
            0nat
        }
    }
}

proof fn lemma_changed_slots<T: ContentHashable>(old: Seq<T>, new: Seq<T>, perm: Seq<int>, n: int)
    requires
        distinct_fingerprints(old),
        perm.len() == old.len(),
        new.len() == old.len(),
        0 <= n <= new.len(),
        forall|j: int| 0 <= j < perm.len() ==> 0 <= #[trigger] perm[j] < old.len() && new[j] == old[perm[j]],
    ensures
        moved(|k: int| perm[k], n as nat) == changed_slots(old, new, n),
    decreases n,
{
    if n > 0 {
        lemma_changed_slots(old, new, perm, n - 1);
        let j = n - 1;
        let ho = element_hashes(old);
        if perm[j] != j {
            assert(ho[perm[j]] != ho[j]);
            assert(new[j] != old[j]);
        }
    }
}

proof fn lemma_changed_slots_positive<T>(old: Seq<T>, new: Seq<T>, j: int, n: int)
    requires
        0 <= j < n,
        new[j] != old[j],
    ensures
        changed_slots(old, new, n) > 0,
    decreases n,
{
    if j < n - 1 {
        lemma_changed_slots_positive(old, new, j, n - 1);
    }
}

proof fn lemma_last_by_hash_distinct<T: ContentHashable>(items: Seq<T>)
    requires
        distinct_fingerprints(items),
    ensures
        forall|h: u64| #[trigger] last_by_hash(items).contains_key(h) == element_hashes(items).contains(h),
        forall|i: int|
            0 <= i < items.len() ==> #[trigger] last_by_hash(items)[element_hashes(items)[i]] == items[i],
    decreases items.len(),
{
    if items.len() > 0 {
        let rest = items.drop_last();
        let hs = element_hashes(items);
        assert(element_hashes(rest) =~= hs.drop_last());
        assert(distinct_fingerprints(rest));
        lemma_last_by_hash_distinct(rest);
        assert(hs.last() == items.last().spec_content_hash().0);
        assert(last_by_hash(items) == last_by_hash(rest).insert(hs.last(), items.last()));
        assert forall|h: u64| #[trigger] last_by_hash(items).contains_key(h) == hs.contains(h) by {
            lemma_push_contains(hs.drop_last(), hs.last(), h);
            assert(hs.drop_last().push(hs.last()) =~= hs);
        }
        assert forall|i: int| 0 <= i < items.len() implies #[trigger] last_by_hash(items)[hs[i]]
            == items[i] by {
            if i < items.len() - 1 {
                assert(hs[i] != hs[items.len() - 1]);
                assert(element_hashes(rest)[i] == hs[i]);
                assert(rest[i] == items[i]);
            }
        }
    }
}

proof fn lemma_pick_all<T>(m: Map<u64, T>, order: Seq<u64>)
    requires
        order.no_duplicates(),
        forall|k: int| 0 <= k < order.len() ==> m.contains_key(#[trigger] order[k]),
    ensures
        pick_in_order(m, order) == order.map_values(|h: u64| m[h]),
    decreases order.len(),
{
    if order.len() > 0 {
        let h = order[0];
        let rest = order.drop_first();
        assert forall|k: int| 0 <= k < rest.len() implies m.remove(h).contains_key(
            #[trigger] rest[k],
        ) by {
            assert(rest[k] == order[k + 1]);
            assert(order[k + 1] != order[0]);
        }
        lemma_pick_all(m.remove(h), rest);
        assert forall|k: int| 0 <= k < rest.len() implies m.remove(h)[#[trigger] rest[k]] == m[rest[k]] by {
            assert(rest[k] == order[k + 1]);
            assert(order[k + 1] != order[0]);
        }
        assert(pick_in_order(m, order) =~= order.map_values(|h: u64| m[h]));
    }
}

/// Arranging items with distinct fingerprints along a target with the same
/// distinct fingerprints yields, for each target entry in turn, the very
/// item (not a copy) that carries its fingerprint.
pub proof fn lemma_reorder_round_trip<T: ContentHashable>(items: Seq<T>, target: Seq<T>)
    requires
        distinct_fingerprints(items),
        distinct_fingerprints(target),
        target.len() == items.len(),
        fingerprint_set(target) == fingerprint_set(items),
    ensures
        arranged(items, element_hashes(target)).len() == target.len(),
        element_hashes(arranged(items, element_hashes(target))) == element_hashes(target),
        forall|k: int|
            0 <= k < target.len() ==> exists|i: int|
                0 <= i < items.len() && #[trigger] arranged(items, element_hashes(target))[k]
                    == items[i] && element_hashes(items)[i] == element_hashes(target)[k],
{
    let hi = element_hashes(items);
    let ht = element_hashes(target);
    let m = last_by_hash(items);
    lemma_last_by_hash_distinct(items);
    assert forall|k: int| 0 <= k < ht.len() implies m.contains_key(#[trigger] ht[k]) by {
        lemma_contains_at(ht, k);
        assert(fingerprint_set(target).contains(ht[k]));
        assert(fingerprint_set(items).contains(ht[k]));
    }
    lemma_pick_all(m, ht);
    let r = arranged(items, ht);
    assert forall|k: int| 0 <= k < target.len() implies exists|i: int|
        0 <= i < items.len() && #[trigger] r[k] == items[i] && hi[i] == ht[k] by {
        assert(hi.contains(ht[k]));
        let i = choose|i: int| 0 <= i < hi.len() && hi[i] == ht[k];
        assert(m[hi[i]] == items[i]);
    }
    assert forall|k: int| 0 <= k < target.len() implies #[trigger] element_hashes(r)[k] == ht[k] by {
        assert(hi.contains(ht[k]));
        let i = choose|i: int| 0 <= i < hi.len() && hi[i] == ht[k];
        assert(m[hi[i]] == items[i]);
        assert(r[k] == items[i]);
    }
    assert(element_hashes(r) =~= ht);
}

/// Entries whose new positions ascend and stay below `bound`.
pub open spec fn ascending_below(e: Seq<(ChangeType, Option<usize>, Option<usize>)>, bound: int) -> bool {
    &&& forall|a: int| 0 <= a < e.len() ==> (#[trigger] e[a]).2 is Some && e[a].2->Some_0 < bound
    &&& forall|a: int, b: int|
        0 <= a < b < e.len() ==> (#[trigger] e[a]).2->Some_0 < (#[trigger] e[b]).2->Some_0
}

proof fn lemma_new_part_ascending<T: ContentHashable + PartialEq>(old: Seq<T>, new: Seq<T>, j: int)
    requires
        0 <= j <= new.len(),
        new.len() <= usize::MAX,
    ensures
        ascending_below(new_part(old, new, j), j),
        forall|a: int|
            0 <= a < new_part(old, new, j).len() ==> (#[trigger] new_part(old, new, j)[a]).0
                != ChangeType::Removed,
    decreases j,
{
    if j > 0 {
        lemma_new_part_ascending(old, new, j - 1);
        let prev = new_part(old, new, j - 1);
        let e = new_entry(old, new, j - 1);
        assert(new_part(old, new, j) == prev + e);
        let all = prev + e;
        assert(e.len() <= 1);
        assert(e.len() == 1 ==> e[0].2 == Some((j - 1) as usize) && e[0].0 != ChangeType::Removed);
        assert forall|a: int| 0 <= a < all.len() implies (#[trigger] all[a]).2 is Some
            && all[a].2->Some_0 < j && all[a].0 != ChangeType::Removed by {
            if a >= prev.len() {
                assert(all[a] == e[a - prev.len()]);
            } else {
                assert(all[a] == prev[a]);
            }
        }
        assert forall|a: int, b: int| 0 <= a < b < all.len() implies (#[trigger] all[a]).2->Some_0
            < (#[trigger] all[b]).2->Some_0 by {
            if b >= prev.len() {
                assert(all[b] == e[b - prev.len()]);
                assert(a < prev.len());
                assert(all[a] == prev[a]);
                assert(prev[a].2->Some_0 < j - 1);
            } else {
                assert(all[a] == prev[a]);
                assert(all[b] == prev[b]);
            }
        }
    }
}

proof fn lemma_removed_part_unplaced<T: ContentHashable>(old: Seq<T>, new: Seq<T>, i: int)
    requires
        0 <= i <= old.len(),
    ensures
        forall|a: int|
            0 <= a < removed_part(old, new, i).len() ==> (#[trigger] removed_part(old, new, i)[a]).2 is None
                && removed_part(old, new, i)[a].0 == ChangeType::Removed,
    decreases i,
{
    if i > 0 {
        lemma_removed_part_unplaced(old, new, i - 1);
        let prev = removed_part(old, new, i - 1);
        let e = removed_entry(old, new, i - 1);
        assert(removed_part(old, new, i) == prev + e);
        assert forall|a: int| 0 <= a < (prev + e).len() implies (#[trigger] (prev + e)[a]).2 is None
            && (prev + e)[a].0 == ChangeType::Removed by {
            if a < prev.len() {
                assert((prev + e)[a] == prev[a]);
            } else {
                assert((prev + e)[a] == e[a - prev.len()]);
            }
        }
    }
}

/// The entries of a detection come by ascending new position, and the
/// removals, which have none, come last.
pub proof fn lemma_expected_order<T: ContentHashable + PartialEq>(old: Seq<T>, new: Seq<T>)
    requires
        new.len() <= usize::MAX,
    ensures
        forall|a: int, b: int|
            0 <= a < b < expected_changes(old, new).len() && (#[trigger] expected_changes(old, new)[a]).2 is Some
                && (#[trigger] expected_changes(old, new)[b]).2 is Some ==> expected_changes(old, new)[a].2->Some_0
                < expected_changes(old, new)[b].2->Some_0,
        forall|a: int, b: int|
            0 <= a < b < expected_changes(old, new).len() && (#[trigger] expected_changes(old, new)[a]).2 is None
                ==> (#[trigger] expected_changes(old, new)[b]).2 is None,
        forall|a: int|
            0 <= a < expected_changes(old, new).len() ==> ((#[trigger] expected_changes(old, new)[a]).2 is None
                <==> expected_changes(old, new)[a].0 == ChangeType::Removed),
{
    let front = new_part(old, new, new.len() as int);
    let back = removed_part(old, new, old.len() as int);
    lemma_new_part_ascending(old, new, new.len() as int);
    lemma_removed_part_unplaced(old, new, old.len() as int);
    let e = expected_changes(old, new);
    assert(e == front + back);
    assert forall|a: int| 0 <= a < e.len() implies (#[trigger] e[a]).2 is None <==> e[a].0
        == ChangeType::Removed by {
        if a < front.len() {
            assert(e[a] == front[a]);
        } else {
            assert(e[a] == back[a - front.len()]);
        }
    }
    assert forall|a: int, b: int|
        0 <= a < b < e.len() && (#[trigger] e[a]).2 is Some && (#[trigger] e[b]).2 is Some implies e[a].2->Some_0
        < e[b].2->Some_0 by {
        if b >= front.len() {
            assert(e[b] == back[b - front.len()]);
        } else {
            assert(e[a] == front[a]);
            assert(e[b] == front[b]);
        }
    }
    assert forall|a: int, b: int| 0 <= a < b < e.len() && (#[trigger] e[a]).2 is None implies (
    #[trigger] e[b]).2 is None by {
        if a < front.len() {
            assert(e[a] == front[a]);
        } else {
            assert(e[b] == back[b - front.len()]);
        }
    }
}

/// The counts of a report that `detect` gave on `old` and `new`, in terms
/// of the expected entries.
proof fn lemma_report_counts<T: ContentHashable + PartialEq>(
    old: Seq<T>,
    new: Seq<T>,
    rep: OrderChangeReport<T>,
)
    requires
        rep.well_formed(),
        shapes(rep.items@) == expected_changes(old, new),
    ensures
        rep.added_count == kind_count(expected_changes(old, new), ChangeType::Added),
        rep.removed_count == kind_count(expected_changes(old, new), ChangeType::Removed),
        rep.content_changed_count == kind_count(expected_changes(old, new), ChangeType::ContentChanged),
        rep.order_changed_count == kind_count(expected_changes(old, new), ChangeType::OrderChanged),
        rep.unchanged_count == kind_count(expected_changes(old, new), ChangeType::NoChange),
{
    lemma_kind_count_of_kind(rep.items@, ChangeType::Added);
    lemma_kind_count_of_kind(rep.items@, ChangeType::Removed);
    lemma_kind_count_of_kind(rep.items@, ChangeType::ContentChanged);
    lemma_kind_count_of_kind(rep.items@, ChangeType::OrderChanged);
    lemma_kind_count_of_kind(rep.items@, ChangeType::NoChange);
}

/// A report of a snapshot against itself (as `detect` gives it) has no
/// changes and counts every item unchanged, provided no fingerprint repeats
/// and every item equals itself.
pub proof fn lemma_report_idempotent<T: ContentHashable + PartialEq>(s: Seq<T>, rep: OrderChangeReport<T>)
    requires
        distinct_fingerprints(s),
        reflexive_on(s),
        rep.well_formed(),
        shapes(rep.items@) == expected_changes(s, s),
    ensures
        !rep.has_changes,
        rep.unchanged_count == s.len(),
        rep.added_count == 0,
        rep.removed_count == 0,
        rep.content_changed_count == 0,
        rep.order_changed_count == 0,
{
    lemma_detect_idempotent(s);
    lemma_report_counts(s, s, rep);
}

/// A report of a permutation without value changes (as `detect` gives it)
/// counts no addition, removal or edit, and one move per displaced index.
pub proof fn lemma_report_permutation<T: ContentHashable + PartialEq>(
    old: Seq<T>,
    new: Seq<T>,
    perm: Seq<int>,
    rep: OrderChangeReport<T>,
)
    requires
        distinct_fingerprints(old),
        reflexive_on(old),
        perm.len() == old.len(),
        new.len() == old.len(),
        forall|j: int| 0 <= j < perm.len() ==> 0 <= #[trigger] perm[j] < old.len() && new[j] == old[perm[j]],
        forall|i: int| 0 <= i < old.len() ==> #[trigger] perm.contains(i),
        rep.well_formed(),
        shapes(rep.items@) == expected_changes(old, new),
    ensures
        rep.added_count == 0,
        rep.removed_count == 0,
        rep.content_changed_count == 0,
        rep.order_changed_count == displaced(perm),
        rep.order_changed_count == changed_slots(old, new, new.len() as int),
        rep.unchanged_count == new.len() - rep.order_changed_count,
{
    lemma_detect_permutation(old, new, perm);
    lemma_report_counts(old, new, rep);
}

/// A report of a snapshot with one new item appended (as `detect` gives
/// it) counts that item added and every other item unchanged.
pub proof fn lemma_report_append<T: ContentHashable + PartialEq>(old: Seq<T>, x: T, rep: OrderChangeReport<T>)
    requires
        distinct_fingerprints(old),
        reflexive_on(old),
        !element_hashes(old).contains(x.spec_content_hash().0),
        rep.well_formed(),
        shapes(rep.items@) == expected_changes(old, old.push(x)),
    ensures
        rep.added_count == 1,
        rep.unchanged_count == old.len(),
        rep.removed_count == 0,
        rep.content_changed_count == 0,
        rep.order_changed_count == 0,
{
    lemma_detect_append(old, x);
    lemma_report_counts(old, old.push(x), rep);
}

/// A report of a snapshot with the item at `k` dropped (as `detect` gives
/// it) counts one removal, the `k` items before it unchanged and the rest
/// moved.
pub proof fn lemma_report_drop<T: ContentHashable + PartialEq>(old: Seq<T>, k: int, rep: OrderChangeReport<T>)
    requires
        distinct_fingerprints(old),
        reflexive_on(old),
        0 <= k < old.len(),
        rep.well_formed(),
        shapes(rep.items@) == expected_changes(old, old.remove(k)),
    ensures
        rep.removed_count == 1,
        rep.unchanged_count == k,
        rep.order_changed_count == old.len() - 1 - k,
        rep.added_count == 0,
        rep.content_changed_count == 0,
{
    lemma_detect_drop(old, k);
    lemma_report_counts(old, old.remove(k), rep);
}

} // verus!
