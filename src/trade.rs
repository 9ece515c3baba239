//! Reading the value of the latest coin trade out of a user's log.

use std::collections::HashMap;
use vstd::prelude::*;

use crate::model::UserLogEntry;
use crate::text::{chars_of, is_word};

verus! {

broadcast use vstd::std_specs::hash::group_hash_axioms;

/// The log category of trades.
pub const TORN_LOG_CATEGORY_TRADE: u32 = 94;

/// Money was added to a trade.
pub const TORN_LOG_TRADE_ADD: &'static str = "Trade money add";

/// Money was taken out of a trade.
pub const TORN_LOG_TRADE_REMOVE: &'static str = "Trade money remove";

/// A trade was opened.
pub const TORN_LOG_TRADE_INIT: &'static str = "Trade initiate outgoing";

/// A trade expired.
pub const TORN_LOG_TRADE_EXPIRE: &'static str = "Trade expire";

/// An incoming trade was cancelled.
pub const TORN_LOG_TRADE_CANCEL_INCOME: &'static str = "Trade cancel incoming";

/// An outgoing trade was cancelled.
pub const TORN_LOG_TRADE_CANCEL_OUTGOING: &'static str = "Trade cancel outgoing";

/// The trade log kinds by log id.
pub open spec fn trade_kinds() -> Map<u32, Seq<char>> {
    map![
        4400u32 => TORN_LOG_TRADE_INIT@,
        4410u32 => TORN_LOG_TRADE_CANCEL_INCOME@,
        4442u32 => TORN_LOG_TRADE_ADD@,
        4443u32 => TORN_LOG_TRADE_REMOVE@,
        4420u32 => TORN_LOG_TRADE_EXPIRE@,
    ]
}

/// The trade log kinds by log id.
pub fn torn_log_trade_map() -> (r: HashMap<u32, &'static str>)
    ensures
        r@.dom() == trade_kinds().dom(),
        forall|k: u32| #[trigger] r@.contains_key(k) ==> r@[k]@ == trade_kinds()[k],
{
    let mut m: HashMap<u32, &'static str> = HashMap::new();
    m.insert(4400, TORN_LOG_TRADE_INIT);
    m.insert(4410, TORN_LOG_TRADE_CANCEL_INCOME);
    m.insert(4442, TORN_LOG_TRADE_ADD);
    m.insert(4443, TORN_LOG_TRADE_REMOVE);
    m.insert(4420, TORN_LOG_TRADE_EXPIRE);
    assert(m@.dom() =~= trade_kinds().dom());
    m
}

/// The total of the first money movement among the entries, scanning in
/// order and stopping with nothing at a cancelled or expired trade.
pub open spec fn coin_value(logs: Seq<UserLogEntry>) -> Option<u64>
    decreases logs.len(),
{
    if logs.len() == 0 {
        None
    } else {
        let id = logs[0].details.id;
        let kinds = trade_kinds();
        if kinds.contains_key(id) && (kinds[id] == TORN_LOG_TRADE_ADD@ || kinds[id]
            == TORN_LOG_TRADE_REMOVE@) {
            logs[0].data.total
        } else if kinds.contains_key(id) && (kinds[id] == TORN_LOG_TRADE_CANCEL_INCOME@
            || kinds[id] == TORN_LOG_TRADE_CANCEL_OUTGOING@ || kinds[id]
            == TORN_LOG_TRADE_EXPIRE@) {
            None
        } else {
            coin_value(logs.drop_first())
        }
    }
}

/// The coins that the latest trade in the log moved, if it moved any.
pub fn get_torn_coin_value(logs: &[UserLogEntry]) -> (r: Option<u64>)
    ensures
        r == coin_value(logs@),
{
    let id_map = torn_log_trade_map();
    let mut i: usize = 0;
    assert(logs@.skip(0) =~= logs@);
    while i < logs.len()
        invariant
            i <= logs@.len(),
            id_map@.dom() == trade_kinds().dom(),
            forall|k: u32| #[trigger] id_map@.contains_key(k) ==> id_map@[k]@ == trade_kinds()[k],
            coin_value(logs@.skip(i as int)) == coin_value(logs@),
        decreases logs@.len() - i,
    {
        let log = &logs[i];
        let ghost rest = logs@.skip(i as int);
        assert(rest[0] == logs@[i as int]);
        assert(rest.drop_first() =~= logs@.skip(i + 1));
        if let Some(name) = id_map.get(&log.details.id) {
            let name_chars = chars_of(*name);
            if is_word(&name_chars, TORN_LOG_TRADE_ADD) || is_word(&name_chars, TORN_LOG_TRADE_REMOVE) {
                return log.data.total;
            } else if is_word(&name_chars, TORN_LOG_TRADE_CANCEL_INCOME) || is_word(
                &name_chars,
                TORN_LOG_TRADE_CANCEL_OUTGOING,
            ) || is_word(&name_chars, TORN_LOG_TRADE_EXPIRE) {
                return None;
            }
        }
        i = i + 1;
    }
    None
}

} // verus!
