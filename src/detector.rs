//! The reconciliation detector: classifies every item of two snapshots as
//! unchanged, moved, edited, added or removed.

use std::collections::{HashMap, HashSet};
use std::time::{Duration, Instant};
use vstd::pervasive::cloned;
use vstd::prelude::*;
use vstd::std_specs::cmp::PartialEqSpec;

use crate::error::OrderChangeError;
use crate::hash::{element_hashes, ContentHashable};
use crate::report::{of_kind, ChangeType, OrderChangeItem, OrderChangeReport};

verus! {

broadcast use vstd::std_specs::hash::group_hash_axioms;

#[verifier::external_type_specification]
#[verifier::external_body]
pub struct ExInstant(Instant);

/// Relies on `Instant::now`: reads the monotonic clock; nothing is promised
/// of the value.
pub assume_specification[ Instant::now ]() -> Instant;

/// Relies on `Instant::elapsed`: the time since an earlier reading.
pub assume_specification[ Instant::elapsed ](i: &Instant) -> Duration;

/// Relies on `Duration::as_micros`: whole microseconds of a duration.
pub assume_specification[ Duration::as_micros ](d: &Duration) -> u128;

/// What affects the bookkeeping of a detection, never its outcome.
#[derive(Debug, Clone)]
pub struct DetectorConfig {
    pub enable_hash_cache: bool,
    pub enable_performance_metrics: bool,
}

impl Default for DetectorConfig {
    fn default() -> (r: Self)
        ensures
            r.enable_hash_cache,
            r.enable_performance_metrics,
    {
        DetectorConfig { enable_hash_cache: true, enable_performance_metrics: true }
    }
}

/// The index of the last occurrence of `h` in `hs`, or -1.
pub open spec fn last_index(hs: Seq<u64>, h: u64) -> int
    decreases hs.len(),
{
    if hs.len() == 0 {
        -1
    } else if hs.last() == h {
        hs.len() - 1
    } else {
        last_index(hs.drop_last(), h)
    }
}

/// How an item found in both snapshots is classified.
pub open spec fn classify<T: PartialEq>(new_item: T, old_item: T, old_pos: int, new_pos: int) -> ChangeType {
    if !new_item.eq_spec(&old_item) {
        ChangeType::ContentChanged
    } else if old_pos != new_pos {
        ChangeType::OrderChanged
    } else {
        ChangeType::NoChange
    }
}

/// The entry, if any, that the item at index `j` of `new` contributes: a
/// classification when its fingerprint occurs in `old` (against the last such
/// old item), `Added` at the first occurrence of a fingerprint that `old` lacks.
pub open spec fn new_entry<T: ContentHashable + PartialEq>(old: Seq<T>, new: Seq<T>, j: int) -> Seq<
    (ChangeType, Option<usize>, Option<usize>),
> {
    let ho = element_hashes(old);
    let hn = element_hashes(new);
    let h = hn[j];
    if ho.contains(h) {
        let op = last_index(ho, h);
        seq![(classify(new[j], old[op], op, j), Some(op as usize), Some(j as usize))]
    } else if !hn.take(j).contains(h) {
        seq![(ChangeType::Added, None, Some(j as usize))]
    } else {
        Seq::empty()
    }
}

/// The entries of the first `j` items of `new`, in index order.
pub open spec fn new_part<T: ContentHashable + PartialEq>(old: Seq<T>, new: Seq<T>, j: int) -> Seq<
    (ChangeType, Option<usize>, Option<usize>),
>
    decreases j,
{
    if j <= 0 {
        Seq::empty()
    } else {
        new_part(old, new, j - 1) + new_entry(old, new, j - 1)
    }
}

/// `Removed` at the first occurrence in `old` of a fingerprint that `new` lacks.
pub open spec fn removed_entry<T: ContentHashable>(old: Seq<T>, new: Seq<T>, i: int) -> Seq<
    (ChangeType, Option<usize>, Option<usize>),
> {
    let ho = element_hashes(old);
    let h = ho[i];
    if !element_hashes(new).contains(h) && !ho.take(i).contains(h) {
        seq![(ChangeType::Removed, Some(i as usize), None)]
    } else {
        Seq::empty()
    }
}

/// The removals among the first `i` items of `old`, in index order.
pub open spec fn removed_part<T: ContentHashable>(old: Seq<T>, new: Seq<T>, i: int) -> Seq<
    (ChangeType, Option<usize>, Option<usize>),
>
    decreases i,
{
    if i <= 0 {
        Seq::empty()
    } else {
        removed_part(old, new, i - 1) + removed_entry(old, new, i - 1)
    }
}

/// Every entry of a detection: those of `new` by ascending new position,
/// then the removals by ascending old position.
pub open spec fn expected_changes<T: ContentHashable + PartialEq>(old: Seq<T>, new: Seq<T>) -> Seq<
    (ChangeType, Option<usize>, Option<usize>),
> {
    new_part(old, new, new.len() as int) + removed_part(old, new, old.len() as int)
}

/// The classifications of a list of entries.
pub open spec fn shapes<T>(s: Seq<OrderChangeItem<T>>) -> Seq<(ChangeType, Option<usize>, Option<usize>)> {
    s.map_values(|e: OrderChangeItem<T>| e.shape())
}

/// The snapshot value that an entry of this shape carries a copy of: the last
/// old item of a removed fingerprint, the last new item of an added one, the
/// new item otherwise.
pub open spec fn source_of<T: ContentHashable>(
    old: Seq<T>,
    new: Seq<T>,
    shape: (ChangeType, Option<usize>, Option<usize>),
) -> T {
    let ho = element_hashes(old);
    let hn = element_hashes(new);
    if shape.0 == ChangeType::Removed {
        old[last_index(ho, ho[shape.1->Some_0 as int])]
    } else if shape.0 == ChangeType::Added {
        new[last_index(hn, hn[shape.2->Some_0 as int])]
    } else {
        new[shape.2->Some_0 as int]
    }
}

proof fn lemma_last_index(hs: Seq<u64>, h: u64)
    ensures
        hs.contains(h) ==> 0 <= last_index(hs, h) < hs.len() && hs[last_index(hs, h)] == h,
        !hs.contains(h) ==> last_index(hs, h) == -1,
    decreases hs.len(),
{
    if hs.len() > 0 {
        lemma_last_index(hs.drop_last(), h);
        if hs.contains(h) && hs.last() != h {
            let i = choose|i: int| 0 <= i < hs.len() && hs[i] == h;
            assert(hs.drop_last()[i] == h);
        }
        if hs.drop_last().contains(h) {
            let i = choose|i: int| 0 <= i < hs.len() - 1 && hs.drop_last()[i] == h;
            assert(hs[i] == h);
        }
    }
}

pub(crate) proof fn lemma_push_contains(s: Seq<u64>, x: u64, h: u64)
    ensures
        s.push(x).contains(h) <==> (s.contains(h) || x == h),
{
    if s.contains(h) {
        let i = choose|i: int| 0 <= i < s.len() && s[i] == h;
        assert(s.push(x)[i] == h);
    }
    if x == h {
        assert(s.push(x)[s.len() as int] == h);
    }
    if s.push(x).contains(h) && x != h {
        let i = choose|i: int| 0 <= i < s.len() + 1 && s.push(x)[i] == h;
        assert(s[i] == h);
    }
}

proof fn lemma_of_kind_push<T>(s: Seq<OrderChangeItem<T>>, e: OrderChangeItem<T>, k: ChangeType)
    ensures
        of_kind(s.push(e), k) == if e.change_type == k {
            of_kind(s, k).push(e)
        } else {
            of_kind(s, k)
        },
{
    assert(s.push(e).drop_last() =~= s);
}

/// The fingerprints of the items of a snapshot.
fn fingerprints<T: ContentHashable>(items: &Vec<T>) -> (r: Vec<u64>)
    ensures
        r@ == element_hashes(items@),
{
    let mut r: Vec<u64> = Vec::new();
    let mut i: usize = 0;
    while i < items.len()
        invariant
            i <= items@.len(),
            r@ == element_hashes(items@).take(i as int),
        decreases items@.len() - i,
    {
        let h = items[i].content_hash();
        r.push(h.0);
        i = i + 1;
        assert(r@ =~= element_hashes(items@).take(i as int));
    }
    assert(element_hashes(items@).take(i as int) =~= element_hashes(items@));
    r
}

/// For each fingerprint, the index of its last occurrence.
fn last_positions(hs: &Vec<u64>) -> (m: HashMap<u64, usize>)
    ensures
        forall|h: u64| #[trigger] m@.contains_key(h) == hs@.contains(h),
        forall|h: u64| #[trigger] m@.contains_key(h) ==> m@[h] as int == last_index(hs@, h),
{
    let mut m: HashMap<u64, usize> = HashMap::new();
    let mut i: usize = 0;
    while i < hs.len()
        invariant
            i <= hs@.len(),
            forall|h: u64| #[trigger] m@.contains_key(h) == hs@.take(i as int).contains(h),
            forall|h: u64|
                #[trigger] m@.contains_key(h) ==> m@[h] as int == last_index(
                    hs@.take(i as int),
                    h,
                ),
        decreases hs@.len() - i,
    {
        let h = hs[i];
        m.insert(h, i);
        proof {
            let prev = hs@.take(i as int);
            assert(hs@.take(i + 1) =~= prev.push(h));
            assert(prev.push(h).drop_last() =~= prev);
            assert forall|k: u64| #[trigger] m@.contains_key(k) == hs@.take(i + 1).contains(k) by {
                lemma_push_contains(prev, h, k);
            }
        }
        i = i + 1;
    }
    assert(hs@.take(i as int) =~= hs@);
    m
}

/// How many times `h` occurs in `hs`.
pub open spec fn occurrences(hs: Seq<u64>, h: u64) -> nat
    decreases hs.len(),
{
    if hs.len() == 0 {
        0
    } else {
        occurrences(hs.drop_last(), h) + if hs.last() == h {
            1nat
        } else {
            0nat
        }
    }
}

/// Equal lengths and the same multiset of fingerprints, order aside.
pub open spec fn same_content<T: ContentHashable>(old: Seq<T>, new: Seq<T>) -> bool {
    &&& old.len() == new.len()
    &&& forall|h: u64|
        occurrences(element_hashes(old), h) == occurrences(element_hashes(new), h)
}

/// The same content, and some index whose fingerprint differs.
pub open spec fn order_only<T: ContentHashable>(old: Seq<T>, new: Seq<T>) -> bool {
    &&& same_content(old, new)
    &&& exists|i: int|
        0 <= i < old.len() && element_hashes(old)[i] != element_hashes(new)[i]
}

proof fn lemma_occurrences_push(s: Seq<u64>, x: u64, h: u64)
    ensures
        occurrences(s.push(x), h) == occurrences(s, h) + if x == h {
            1nat
        } else {
            0nat
        },
{
    assert(s.push(x).drop_last() =~= s);
}

proof fn lemma_occurrences_bound(s: Seq<u64>, h: u64)
    ensures
        occurrences(s, h) <= s.len(),
        !s.contains(h) ==> occurrences(s, h) == 0,
    decreases s.len(),
{
    if s.len() > 0 {
        lemma_occurrences_bound(s.drop_last(), h);
        if !s.contains(h) && s.drop_last().contains(h) {
            let i = choose|i: int| 0 <= i < s.len() - 1 && s.drop_last()[i] == h;
            assert(s[i] == h);
        }
        if !s.contains(h) {
            assert(s[s.len() - 1] != h);
        }
    }
}

proof fn lemma_occurrences_prefix(s: Seq<u64>, j: int, h: u64)
    requires
        0 <= j <= s.len(),
    ensures
        occurrences(s.take(j), h) <= occurrences(s, h),
    decreases s.len() - j,
{
    if j < s.len() {
        lemma_occurrences_prefix(s, j + 1, h);
        assert(s.take(j + 1) =~= s.take(j).push(s[j]));
        lemma_occurrences_push(s.take(j), s[j], h);
    } else {
        assert(s.take(j) =~= s);
    }
}

/// The count that a map of counters holds for `h`, absent keys counting zero.
pub open spec fn counter(m: Map<u64, usize>, h: u64) -> int {
    if m.contains_key(h) {
        m[h] as int
    } else {
        0
    }
}

/// Two entries agree on all that does not rest on the items' `==`: their
/// positions, whether they are additions or removals, and that a move
/// changes position where an unchanged item keeps it.
pub open spec fn same_placement(
    a: (ChangeType, Option<usize>, Option<usize>),
    b: (ChangeType, Option<usize>, Option<usize>),
) -> bool {
    &&& a.1 == b.1
    &&& a.2 == b.2
    &&& (a.0 == ChangeType::Added) == (b.0 == ChangeType::Added)
    &&& (a.0 == ChangeType::Removed) == (b.0 == ChangeType::Removed)
    &&& a.0 == ChangeType::OrderChanged ==> a.1 != a.2
    &&& a.0 == ChangeType::NoChange ==> a.1 == a.2
}

/// Two lists of entries agree, entry by entry, in placement.
pub open spec fn placed_as(
    s: Seq<(ChangeType, Option<usize>, Option<usize>)>,
    e: Seq<(ChangeType, Option<usize>, Option<usize>)>,
) -> bool {
    &&& s.len() == e.len()
    &&& forall|k: int| 0 <= k < s.len() ==> same_placement(#[trigger] s[k], e[k])
}

proof fn lemma_removed_placed<T: ContentHashable>(old: Seq<T>, new: Seq<T>, i: int)
    requires
        0 <= i <= old.len(),
    ensures
        placed_as(removed_part(old, new, i), removed_part(old, new, i)),
    decreases i,
{
    if i > 0 {
        lemma_removed_placed(old, new, i - 1);
        let e = removed_entry(old, new, i - 1);
        assert(placed_as(e, e));
        lemma_placed_extend(removed_part(old, new, i - 1), removed_part(old, new, i - 1), e, e);
    }
}

proof fn lemma_placed_extend(
    s: Seq<(ChangeType, Option<usize>, Option<usize>)>,
    e: Seq<(ChangeType, Option<usize>, Option<usize>)>,
    x: Seq<(ChangeType, Option<usize>, Option<usize>)>,
    y: Seq<(ChangeType, Option<usize>, Option<usize>)>,
)
    requires
        placed_as(s, e),
        placed_as(x, y),
    ensures
        placed_as(s + x, e + y),
{
    assert forall|k: int| 0 <= k < (s + x).len() implies same_placement(#[trigger] (s + x)[k], (e + y)[k]) by {
        if k < s.len() {
            assert((s + x)[k] == s[k]);
            assert((e + y)[k] == e[k]);
        } else {
            assert((s + x)[k] == x[k - s.len()]);
            assert((e + y)[k] == y[k - s.len()]);
        }
    }
}

/// Compares an old and a new snapshot of one collection.
#[derive(Debug, Clone)]
pub struct OrderChangeDetector<T> {
    old_data: Vec<T>,
    new_data: Vec<T>,
    config: DetectorConfig,
}

impl<T: ContentHashable + PartialEq + Clone> OrderChangeDetector<T> {
    pub closed spec fn old_items(&self) -> Seq<T> {
        self.old_data@
    }

    pub closed spec fn new_items(&self) -> Seq<T> {
        self.new_data@
    }

    pub closed spec fn settings(&self) -> DetectorConfig {
        self.config
    }

    pub fn new(old_data: Vec<T>, new_data: Vec<T>) -> (r: Self)
        ensures
            r.old_items() == old_data@,
            r.new_items() == new_data@,
            r.settings().enable_hash_cache,
            r.settings().enable_performance_metrics,
    {
        OrderChangeDetector { old_data, new_data, config: DetectorConfig::default() }
    }

    pub fn with_config(self, config: DetectorConfig) -> (r: Self)
        ensures
            r.old_items() == self.old_items(),
            r.new_items() == self.new_items(),
            r.settings() == config,
    {
        let mut s = self;
        s.config = config;
        s
    }

    /// Classifies every item; see `expected_changes` for the entries, which
    /// come sorted by new position with the removals last.
    pub fn detect(&self) -> (r: Result<OrderChangeReport<T>, OrderChangeError>)
        ensures
            r is Ok,
            r matches Ok(rep) ==> {
                &&& rep.well_formed()
                &&& !self.settings().enable_performance_metrics ==> rep.detection_time_us == 0
                &&& placed_as(shapes(rep.items@), expected_changes(self.old_items(), self.new_items()))
                &&& T::obeys_eq_spec() ==> shapes(rep.items@) == expected_changes(
                    self.old_items(),
                    self.new_items(),
                )
                &&& forall|k: int|
                    0 <= k < rep.items@.len() ==> cloned(
                        source_of(self.old_items(), self.new_items(), #[trigger] rep.items@[k].shape()),
                        rep.items@[k].item,
                    )
            },
    {
        let start = if self.config.enable_performance_metrics {
            Some(Instant::now())
        } else {
            None
        };
        let ghost old = self.old_data@;
        let ghost new = self.new_data@;
        let old_h = fingerprints(&self.old_data);
        let new_h = fingerprints(&self.new_data);
        let old_last = last_positions(&old_h);
        let new_last = last_positions(&new_h);
        let mut rep: OrderChangeReport<T> = OrderChangeReport::default();
        let mut added_seen: HashSet<u64> = HashSet::new();
        let mut j: usize = 0;
        assert(rep.items@ =~= Seq::<OrderChangeItem<T>>::empty());
        while j < new_h.len()
            invariant
                j <= new.len(),
                old == self.old_data@,
                new == self.new_data@,
                old_h@ == element_hashes(old),
                new_h@ == element_hashes(new),
                new_h@.len() == new.len(),
                old_h@.len() == old.len(),
                forall|h: u64| #[trigger] old_last@.contains_key(h) == old_h@.contains(h),
                forall|h: u64|
                    #[trigger] old_last@.contains_key(h) ==> old_last@[h] as int == last_index(
                        old_h@,
                        h,
                    ),
                forall|h: u64| #[trigger] new_last@.contains_key(h) == new_h@.contains(h),
                forall|h: u64|
                    #[trigger] new_last@.contains_key(h) ==> new_last@[h] as int == last_index(
                        new_h@,
                        h,
                    ),
                forall|h: u64|
                    #[trigger] added_seen@.contains(h) == (new_h@.take(j as int).contains(h)
                        && !old_h@.contains(h)),
                rep.items@.len() <= j,
                rep.added_count + rep.content_changed_count + rep.order_changed_count
                    + rep.unchanged_count == rep.items@.len(),
                rep.well_formed(),
                rep.removed_count == 0,
                rep.detection_time_us == 0,
                placed_as(shapes(rep.items@), new_part(old, new, j as int)),
                T::obeys_eq_spec() ==> shapes(rep.items@) == new_part(old, new, j as int),
                forall|k: int|
                    0 <= k < rep.items@.len() ==> cloned(
                        source_of(old, new, #[trigger] rep.items@[k].shape()),
                        rep.items@[k].item,
                    ),
            decreases new.len() - j,
        {
            let h = new_h[j];
            proof {
                lemma_last_index(old_h@, h);
                lemma_last_index(new_h@, h);
                lemma_push_contains(new_h@.take(j as int), h, h);
                assert(new_h@.take(j + 1) =~= new_h@.take(j as int).push(h));
                assert forall|x: u64| #[trigger] new_h@.take(j + 1).contains(x) == (new_h@.take(
                    j as int,
                ).contains(x) || x == h) by {
                    lemma_push_contains(new_h@.take(j as int), h, x);
                }
            }
            let ghost before = rep.items@;
            match old_last.get(&h) {
                Some(op_ref) => {
                    let op = *op_ref;
                    let new_item = &self.new_data[j];
                    let old_item = &self.old_data[op];
                    let kind = if !(new_item == old_item) {
                        ChangeType::ContentChanged
                    } else if op != j {
                        ChangeType::OrderChanged
                    } else {
                        ChangeType::NoChange
                    };
                    let e = OrderChangeItem {
                        item: new_item.clone(),
                        old_position: Some(op),
                        new_position: Some(j),
                        change_type: kind,
                    };
                    proof {
                        lemma_of_kind_push(before, e, ChangeType::Added);
                        lemma_of_kind_push(before, e, ChangeType::Removed);
                        lemma_of_kind_push(before, e, ChangeType::ContentChanged);
                        lemma_of_kind_push(before, e, ChangeType::OrderChanged);
                        lemma_of_kind_push(before, e, ChangeType::NoChange);
                    }
                    match kind {
                        ChangeType::ContentChanged => {
                            rep.content_changed_count = rep.content_changed_count + 1;
                        },
                        ChangeType::OrderChanged => {
                            rep.order_changed_count = rep.order_changed_count + 1;
                        },
                        _ => {
                            rep.unchanged_count = rep.unchanged_count + 1;
                        },
                    }
                    rep.items.push(e);
                    proof {
                        let y = new_entry(old, new, j as int);
                        assert(same_placement(e.shape(), y[0]));
                        assert(placed_as(seq![e.shape()], y));
                        lemma_placed_extend(shapes(before), new_part(old, new, j as int), seq![e.shape()], y);
                        assert(shapes(rep.items@) =~= shapes(before) + seq![e.shape()]);
                    }
                },
                None => {
                    if !added_seen.contains(&h) {
                        added_seen.insert(h);
                        let src = *new_last.get(&h).unwrap();
                        let e = OrderChangeItem {
                            item: self.new_data[src].clone(),
                            old_position: None,
                            new_position: Some(j),
                            change_type: ChangeType::Added,
                        };
                        proof {
                            lemma_of_kind_push(before, e, ChangeType::Added);
                            lemma_of_kind_push(before, e, ChangeType::Removed);
                            lemma_of_kind_push(before, e, ChangeType::ContentChanged);
                            lemma_of_kind_push(before, e, ChangeType::OrderChanged);
                            lemma_of_kind_push(before, e, ChangeType::NoChange);
                        }
                        rep.added_count = rep.added_count + 1;
                        rep.items.push(e);
                        proof {
                            let y = new_entry(old, new, j as int);
                            assert(placed_as(seq![e.shape()], y));
                            lemma_placed_extend(shapes(before), new_part(old, new, j as int), seq![e.shape()], y);
                            assert(shapes(rep.items@) =~= shapes(before) + seq![e.shape()]);
                        }
                    } else {
                        proof {
                            assert(new_entry(old, new, j as int) =~= Seq::empty());
                            assert(new_part(old, new, j as int) + Seq::empty() =~= new_part(old, new, j as int));
                        }
                    }
                },
            }
            rep.has_changes = rep.added_count > 0 || rep.removed_count > 0
                || rep.content_changed_count > 0 || rep.order_changed_count > 0;
            proof {
                if T::obeys_eq_spec() {
                    assert(shapes(rep.items@) =~= shapes(before) + new_entry(old, new, j as int));
                }
            }
            j = j + 1;
        }
        let mut removed_seen: HashSet<u64> = HashSet::new();
        let mut i: usize = 0;
        let ghost front = shapes(rep.items@);
        let ghost n_front = rep.items@.len();
        while i < old_h.len()
            invariant
                i <= old.len(),
                old == self.old_data@,
                new == self.new_data@,
                old_h@ == element_hashes(old),
                new_h@ == element_hashes(new),
                old_h@.len() == old.len(),
                forall|h: u64| #[trigger] old_last@.contains_key(h) == old_h@.contains(h),
                forall|h: u64|
                    #[trigger] old_last@.contains_key(h) ==> old_last@[h] as int == last_index(
                        old_h@,
                        h,
                    ),
                forall|h: u64| #[trigger] new_last@.contains_key(h) == new_h@.contains(h),
                forall|h: u64|
                    #[trigger] removed_seen@.contains(h) == (old_h@.take(i as int).contains(h)
                        && !new_h@.contains(h)),
                rep.removed_count <= i,
                rep.well_formed(),
                T::obeys_eq_spec() ==> front == new_part(old, new, new.len() as int),
                shapes(rep.items@) == front + removed_part(old, new, i as int),
                placed_as(front, new_part(old, new, new.len() as int)),
                rep.detection_time_us == 0,
                forall|k: int|
                    0 <= k < rep.items@.len() ==> cloned(
                        source_of(old, new, #[trigger] rep.items@[k].shape()),
                        rep.items@[k].item,
                    ),
            decreases old.len() - i,
        {
            let h = old_h[i];
            proof {
                lemma_last_index(old_h@, h);
                assert(old_h@.take(i + 1) =~= old_h@.take(i as int).push(h));
                assert forall|x: u64| #[trigger] old_h@.take(i + 1).contains(x) == (old_h@.take(
                    i as int,
                ).contains(x) || x == h) by {
                    lemma_push_contains(old_h@.take(i as int), h, x);
                }
            }
            let ghost before = rep.items@;
            if !new_last.contains_key(&h) && !removed_seen.contains(&h) {
                removed_seen.insert(h);
                let src = *old_last.get(&h).unwrap();
                let e = OrderChangeItem {
                    item: self.old_data[src].clone(),
                    old_position: Some(i),
                    new_position: None,
                    change_type: ChangeType::Removed,
                };
                proof {
                    lemma_of_kind_push(before, e, ChangeType::Added);
                    lemma_of_kind_push(before, e, ChangeType::Removed);
                    lemma_of_kind_push(before, e, ChangeType::ContentChanged);
                    lemma_of_kind_push(before, e, ChangeType::OrderChanged);
                    lemma_of_kind_push(before, e, ChangeType::NoChange);
                }
                rep.removed_count = rep.removed_count + 1;
                rep.items.push(e);
                rep.has_changes = true;
            }
            proof {
                assert(shapes(rep.items@) =~= shapes(before) + removed_entry(old, new, i as int));
            }
            i = i + 1;
        }
        proof {
            let rp = removed_part(old, new, old.len() as int);
            lemma_removed_placed(old, new, old.len() as int);
            lemma_placed_extend(front, new_part(old, new, new.len() as int), rp, rp);
        }
        if let Some(s) = start {
            let elapsed = s.elapsed();
            rep.detection_time_us = elapsed.as_micros();
        }
        Ok(rep)
    }

    /// True iff both snapshots have the same length and the same multiset
    /// of fingerprints.
    pub fn is_content_only_changed(&self) -> (r: bool)
        ensures
            r == same_content(self.old_items(), self.new_items()),
    {
        if self.old_data.len() != self.new_data.len() {
            return false;
        }
        let old_h = fingerprints(&self.old_data);
        let new_h = fingerprints(&self.new_data);
        let n = old_h.len();
        let mut counts: HashMap<u64, usize> = HashMap::new();
        let mut i: usize = 0;
        while i < n
            invariant
                i <= n,
                n == old_h@.len(),
                forall|h: u64| #[trigger] counter(counts@, h) == occurrences(old_h@.take(i as int), h),
            decreases n - i,
        {
            let h = old_h[i];
            proof {
                assert(old_h@.take(i + 1) =~= old_h@.take(i as int).push(h));
                lemma_occurrences_bound(old_h@.take(i as int), h);
                assert forall|x: u64| #[trigger] occurrences(old_h@.take(i + 1), x) == occurrences(
                    old_h@.take(i as int),
                    x,
                ) + if h == x {
                    1nat
                } else {
                    0nat
                } by {
                    lemma_occurrences_push(old_h@.take(i as int), h, x);
                }
            }
            let c: usize = match counts.get(&h) {
                Some(c) => *c,
                None => 0,
            };
            assert(c as int == counter(counts@, h));
            let ghost prev = counts@;
            counts.insert(h, c + 1);
            assert forall|x: u64| #[trigger] counter(counts@, x) == counter(prev, x) + if h == x {
                1int
            } else {
                0int
            } by {}
            i = i + 1;
        }
        assert(old_h@.take(n as int) =~= old_h@);
        let mut j: usize = 0;
        assert(new_h@.take(0) =~= Seq::<u64>::empty());
        while j < n
            invariant
                j <= n,
                n == old_h@.len(),
                n == new_h@.len(),
                old_h@ == element_hashes(self.old_items()),
                new_h@ == element_hashes(self.new_items()),
                forall|h: u64|
                    #[trigger] counter(counts@, h) + occurrences(new_h@.take(j as int), h)
                        == occurrences(old_h@, h),
                forall|h: u64| #[trigger] counter(counts@, h) >= 0,
            decreases n - j,
        {
            let h = new_h[j];
            proof {
                assert(new_h@.take(j + 1) =~= new_h@.take(j as int).push(h));
                assert forall|x: u64| #[trigger] occurrences(new_h@.take(j + 1), x) == occurrences(
                    new_h@.take(j as int),
                    x,
                ) + if h == x {
                    1nat
                } else {
                    0nat
                } by {
                    lemma_occurrences_push(new_h@.take(j as int), h, x);
                }
            }
            let c: usize = match counts.get(&h) {
                Some(c) => *c,
                None => 0,
            };
            assert(c as int == counter(counts@, h));
            if c == 0 {
                proof {
                    lemma_occurrences_prefix(new_h@, j + 1, h);
                    assert(occurrences(element_hashes(self.old_items()), h) != occurrences(
                        element_hashes(self.new_items()),
                        h,
                    ));
                }
                return false;
            }
            let ghost prev = counts@;
            counts.insert(h, c - 1);
            assert forall|x: u64| #[trigger] counter(counts@, x) == counter(prev, x) - if h == x {
                1int
            } else {
                0int
            } by {}
            j = j + 1;
        }
        assert(new_h@.take(n as int) =~= new_h@);
        let mut k: usize = 0;
        while k < n
            invariant
                k <= n,
                n == old_h@.len(),
                n == new_h@.len(),
                old_h@ == element_hashes(self.old_items()),
                new_h@ == element_hashes(self.new_items()),
                forall|h: u64|
                    #[trigger] counter(counts@, h) + occurrences(new_h@, h) == occurrences(
                        old_h@,
                        h,
                    ),
                forall|m: int| 0 <= m < k ==> counter(counts@, #[trigger] old_h@[m]) == 0,
            decreases n - k,
        {
            let h = old_h[k];
            let c: usize = match counts.get(&h) {
                Some(c) => *c,
                None => 0,
            };
            assert(c as int == counter(counts@, h));
            if c != 0 {
                assert(occurrences(element_hashes(self.old_items()), h) != occurrences(
                    element_hashes(self.new_items()),
                    h,
                ));
                return false;
            }
            k = k + 1;
        }
        proof {
            assert forall|h: u64|
                occurrences(element_hashes(self.old_items()), h) == occurrences(
                    element_hashes(self.new_items()),
                    h,
                ) by {
                if old_h@.contains(h) {
                    let m = choose|m: int| 0 <= m < n && old_h@[m] == h;
                    assert(counter(counts@, old_h@[m]) == 0);
                } else {
                    lemma_occurrences_bound(old_h@, h);
                    assert(counter(counts@, h) + occurrences(new_h@, h) == occurrences(old_h@, h));
                }
            }
        }
        true
    }

    /// True iff the content is the same and at least one index holds a
    /// different fingerprint in the two snapshots.
    pub fn is_order_only_changed(&self) -> (r: bool)
        ensures
            r == order_only(self.old_items(), self.new_items()),
    {
        if !self.is_content_only_changed() {
            return false;
        }
        let mut i: usize = 0;
        while i < self.new_data.len()
            invariant
                same_content(self.old_items(), self.new_items()),
                self.new_data@ == self.new_items(),
                self.old_data@ == self.old_items(),
                i <= self.new_data@.len(),
                forall|m: int|
                    0 <= m < i ==> element_hashes(self.old_items())[m] == element_hashes(
                        self.new_items(),
                    )[m],
            decreases self.new_data@.len() - i,
        {
            let a = self.old_data[i].content_hash();
            let b = self.new_data[i].content_hash();
            if a.0 != b.0 {
                assert(element_hashes(self.old_items())[i as int] != element_hashes(
                    self.new_items(),
                )[i as int]);
                return true;
            }
            i = i + 1;
        }
        false
    }
}

} // verus!
