//! Lookup tables over the item catalogue.

use std::collections::HashMap;
use vstd::prelude::*;

use crate::model::ItemInfo;
use crate::text::{chars_of, is_word};

verus! {

broadcast use vstd::std_specs::hash::group_hash_axioms;

/// Each id of a list of items mapped to the last item that has it.
pub open spec fn items_by_id(items: Seq<ItemInfo>) -> Map<i32, ItemInfo>
    decreases items.len(),
{
    if items.len() == 0 {
        Map::empty()
    } else {
        items_by_id(items.drop_last()).insert(items.last().id, items.last())
    }
}

/// A weapon has a weapon type, and not the temporary one.
pub open spec fn is_weapon(item: ItemInfo) -> bool {
    item.weapon_type@.len() > 0 && item.weapon_type@ != "Temporary"@
}

/// Each id of the weapons of a list mapped to the last weapon that has it.
pub open spec fn weapons_by_id(items: Seq<ItemInfo>) -> Map<i32, ItemInfo>
    decreases items.len(),
{
    if items.len() == 0 {
        Map::empty()
    } else if is_weapon(items.last()) {
        weapons_by_id(items.drop_last()).insert(items.last().id, items.last())
    } else {
        weapons_by_id(items.drop_last())
    }
}

/// The catalogue by item id.
pub fn get_item_info_map(items: Vec<ItemInfo>) -> (r: HashMap<i32, ItemInfo>)
    ensures
        r@ == items_by_id(items@),
{
    let mut m: HashMap<i32, ItemInfo> = HashMap::new();
    let ghost all = items@;
    for item in it: items
        invariant
            it.seq() == all,
            m@ == items_by_id(all.take(it.index() as int)),
    {
        let ghost k = it.index() as int;
        assert(all.take(k + 1).drop_last() =~= all.take(k));
        m.insert(item.id, item);
    }
    assert(all.take(all.len() as int) =~= all);
    m
}

/// The weapons of the catalogue by item id.
pub fn weapon_id_map(items: Vec<ItemInfo>) -> (r: HashMap<i32, ItemInfo>)
    ensures
        r@ == weapons_by_id(items@),
{
    let mut m: HashMap<i32, ItemInfo> = HashMap::new();
    let ghost all = items@;
    for item in it: items
        invariant
            it.seq() == all,
            m@ == weapons_by_id(all.take(it.index() as int)),
    {
        let ghost k = it.index() as int;
        assert(all.take(k + 1).drop_last() =~= all.take(k));
        let kind = chars_of(item.weapon_type.as_str());
        if kind.len() > 0 && !is_word(&kind, "Temporary") {
            m.insert(item.id, item);
        }
    }
    assert(all.take(all.len() as int) =~= all);
    m
}

} // verus!
