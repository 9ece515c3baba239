//! The favourites response with its metadata record, and the addresses
//! and settings around it.

use vstd::prelude::*;

use crate::model::ProductionItem;
use crate::text::{decimal_i64, push_str, signed_decimal, string_of};

verus! {

/// The metadata record that precedes the favourites list.
#[derive(Debug, Clone)]
pub struct Metadata {
    pub a: String,
    pub f: String,
    pub b: String,
    pub q: String,
    pub i: bool,
}

/// The favourites list with its metadata.
#[derive(Debug, Clone)]
pub struct FavoritesResponse {
    pub metadata: Metadata,
    pub items: Vec<ProductionItem>,
}

/// How the profit list is sorted.
#[derive(Debug, Clone)]
pub struct SortProfitParams {
    pub recent_sec: u64,
}

impl Default for SortProfitParams {
    fn default() -> (r: Self)
        ensures
            r.recent_sec == 0,
    {
        SortProfitParams { recent_sec: 0 }
    }
}

/// The address of a player's bazaar.
pub open spec fn bazaar_url(player_id: int) -> Seq<char> {
    "https://www.torn.com/bazaar.php?userId="@ + signed_decimal(player_id)
}

pub fn get_bazaar_url(player_id: i32) -> (r: String)
    ensures
        r@ == bazaar_url(player_id as int),
{
    let mut v: Vec<char> = Vec::new();
    push_str(&mut v, "https://www.torn.com/bazaar.php?userId=");
    let mut digits = decimal_i64(player_id as i64);
    v.append(&mut digits);
    string_of(&v)
}

} // verus!
