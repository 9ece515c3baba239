//! The records that the upstream sources deliver: the item catalogue, shop
//! listings, user logs and favourites.  Parsing them from JSON or CSV is
//! left to the caller; what is here is plain data and the framing of the
//! favourites response.

use serde_json::Value;
use vstd::prelude::*;

use crate::image::{before_first, lemma_before_first};
use crate::text::{chars_of, is_word, slice_chars, string_of, upper_of, uppercase};

verus! {

#[verifier::external_type_specification]
#[verifier::external_body]
pub struct ExJsonValue(Value);

/// Failures of a request to an upstream source.
#[derive(Debug)]
pub enum MyError {
    NetworkCode(i64, String),
    JsonParse(String),
}

/// One item of the catalogue.
#[derive(Debug, Clone)]
pub struct ItemInfo {
    pub id: i32,
    pub name: String,
    pub description: String,
    pub effect: String,
    pub requirement: String,
    pub t: String,
    pub weapon_type: String,
    pub buy_price: u64,
    pub sell_price: u64,
    pub market_value: u64,
    pub circulation: u64,
    pub image: String,
    pub tradeable: bool,
}

/// One row of the catalogue file, with the tradeable flag still as text.
#[derive(Debug)]
pub struct CsvItemInfo {
    pub id: i32,
    pub name: String,
    pub description: String,
    pub effect: String,
    pub requirement: String,
    pub t: String,
    pub weapon_type: String,
    pub buy_price: u64,
    pub sell_price: u64,
    pub market_value: u64,
    pub circulation: u64,
    pub image: String,
    pub tradeable: String,
}

impl vstd::std_specs::convert::FromSpecImpl<CsvItemInfo> for ItemInfo {
    open spec fn obeys_from_spec() -> bool {
        true
    }

    open spec fn from_spec(item: CsvItemInfo) -> ItemInfo {
        ItemInfo {
            id: item.id,
            name: item.name,
            description: item.description,
            effect: item.effect,
            requirement: item.requirement,
            t: item.t,
            weapon_type: item.weapon_type,
            buy_price: item.buy_price,
            sell_price: item.sell_price,
            market_value: item.market_value,
            circulation: item.circulation,
            image: item.image,
            tradeable: upper_of(item.tradeable@) == "TRUE"@,
        }
    }
}

impl From<CsvItemInfo> for ItemInfo {
    /// A row becomes an item; it is tradeable when its flag reads `true` in
    /// any letter case.
    fn from(item: CsvItemInfo) -> (r: ItemInfo) {
        let upper = uppercase(item.tradeable.as_str());
        let tradeable = is_word(&chars_of(upper.as_str()), "TRUE");
        ItemInfo {
            id: item.id,
            name: item.name,
            description: item.description,
            effect: item.effect,
            requirement: item.requirement,
            t: item.t,
            weapon_type: item.weapon_type,
            buy_price: item.buy_price,
            sell_price: item.sell_price,
            market_value: item.market_value,
            circulation: item.circulation,
            image: item.image,
            tradeable,
        }
    }
}

/// An item that the official shop buys.
#[derive(Debug, Clone)]
pub struct OfficeSellItem {
    pub id: i32,
    pub name: String,
    pub sell: i64,
    pub stack: bool,
    pub in_shop: bool,
}

/// A query for a user's log.
pub struct UserLogReq {
    pub target: Option<u32>,
    pub limit: u32,
    pub cat: Option<u32>,
    pub key: String,
}

impl Default for UserLogReq {
    fn default() -> (r: Self)
        ensures
            r.target is None,
            r.limit == 10,
            r.cat is None,
            r.key@.len() == 0,
    {
        UserLogReq { target: None, limit: 10, cat: None, key: String::new() }
    }
}

/// A user's log as the upstream source returns it.
#[derive(Debug)]
pub struct UserLogResponse {
    pub log: Vec<UserLogEntry>,
}

/// One log entry; its parameters stay raw JSON.
#[derive(Debug)]
pub struct UserLogEntry {
    pub id: String,
    pub timestamp: i64,
    pub details: UserLogDetails,
    pub data: UserLogData,
    pub params: Value,
}

/// What kind of entry a log entry is.
#[derive(Debug, Clone)]
pub struct UserLogDetails {
    pub id: u32,
    pub title: String,
    pub category: String,
}

/// The amounts a log entry records.
#[derive(Debug, Clone)]
pub struct UserLogData {
    pub user: i64,
    pub money: Option<u64>,
    pub total: Option<u64>,
    pub description: Option<String>,
}

/// The favourites list.
#[derive(Debug, Clone)]
pub struct FavoritesResponse {
    pub items: Vec<ProductionItem>,
}

/// One favourite item with its cheapest bazaar offers.
#[derive(Debug, Clone)]
pub struct ProductionItem {
    pub id: i32,
    pub name: String,
    pub image: String,
    pub market_price: i32,
    pub avg_bazaar_price: i32,
    pub cheapest_bazaars: Vec<BazaarPriceInfo>,
}

/// One bazaar offer.
#[derive(Debug, Clone)]
pub struct BazaarPriceInfo {
    pub player_id: i32,
    pub player_name: String,
    pub quantity: i32,
    pub price: i32,
    pub total_value: String,
}

/// The line without the `\r` of a `\r\n` ending.
pub open spec fn without_cr(line: Seq<char>) -> Seq<char> {
    if line.len() > 0 && line.last() == '\r' {
        line.drop_last()
    } else {
        line
    }
}

/// The lines of a text as `str::lines` gives them: split at `\n`, a `\r`
/// before the `\n` dropped, no empty line after a final `\n`.
pub open spec fn text_lines(s: Seq<char>) -> Seq<Seq<char>>
    decreases s.len(),
{
    if s.len() == 0 {
        Seq::empty()
    } else {
        let line = before_first(s, '\n');
        if line.len() < s.len() {
            seq![without_cr(line)] + text_lines(s.skip(line.len() as int + 1))
        } else {
            seq![line]
        }
    }
}

/// The `index:payload` records of a list of lines, in order; lines
/// without a colon are skipped.
pub open spec fn records_of(lines: Seq<Seq<char>>) -> Seq<(Seq<char>, Seq<char>)>
    decreases lines.len(),
{
    if lines.len() == 0 {
        Seq::empty()
    } else {
        let line = lines[0];
        let key = before_first(line, ':');
        let rest = records_of(lines.drop_first());
        if key.len() < line.len() {
            seq![(key, line.skip(key.len() as int + 1))] + rest
        } else {
            rest
        }
    }
}

/// The views of a list of string pairs.
pub open spec fn pair_views(v: Seq<(String, String)>) -> Seq<(Seq<char>, Seq<char>)> {
    v.map_values(|p: (String, String)| (p.0@, p.1@))
}

/// The first index at or after `from` that holds `c`, or the length.
fn find_from(s: &Vec<char>, c: char, from: usize) -> (r: usize)
    requires
        from <= s@.len(),
    ensures
        from <= r <= s@.len(),
        forall|k: int| from <= k < r ==> s@[k] != c,
        r == s@.len() || s@[r as int] == c,
{
    let mut i = from;
    while i < s.len() && s[i] != c
        invariant
            from <= i <= s@.len(),
            forall|k: int| from <= k < i ==> s@[k] != c,
        decreases s@.len() - i,
    {
        i = i + 1;
    }
    i
}

/// Splits a multi-line response into its `index:payload` records; the
/// payloads are left for a JSON parser.
pub fn record_lines(text: &str) -> (r: Vec<(String, String)>)
    ensures
        pair_views(r@) == records_of(text_lines(text@)),
{
    let s = chars_of(text);
    let n = s.len();
    let mut out: Vec<(String, String)> = Vec::new();
    let mut start: usize = 0;
    assert(s@.skip(0) =~= s@);
    while start < n
        invariant
            start <= n == s@.len(),
            s@ == text@,
            pair_views(out@) + records_of(text_lines(s@.skip(start as int))) == records_of(
                text_lines(text@),
            ),
        decreases n - start,
    {
        let ghost rest = s@.skip(start as int);
        let end = find_from(&s, '\n', start);
        proof {
            assert forall|k: int| 0 <= k < end - start implies rest[k] != '\n' by {
                assert(rest[k] == s@[start + k]);
            }
            lemma_before_first(rest, '\n', end - start);
        }
        let mut line_end = end;
        if end < n && end > start && s[end - 1] == '\r' {
            line_end = end - 1;
        }
        let line = slice_chars(&s, start, line_end);
        let ghost lines_here = text_lines(rest);
        proof {
            if end < n {
                assert(line@ =~= without_cr(rest.take(end - start)));
                assert(rest.skip(end - start + 1) =~= s@.skip(end + 1));
            } else {
                assert(line@ =~= rest.take(end - start));
                assert(rest.take(end - start) =~= rest);
            }
        }
        let colon = find_from(&line, ':', 0);
        proof {
            lemma_before_first(line@, ':', colon as int);
        }
        let ghost before = out@;
        if colon < line.len() {
            let key = string_of(&slice_chars(&line, 0, colon));
            let payload = string_of(&slice_chars(&line, colon + 1, line.len()));
            assert(key@ =~= line@.take(colon as int));
            assert(payload@ =~= line@.skip(colon + 1));
            out.push((key, payload));
        }
        proof {
            let tail = if end < n { s@.skip(end + 1) } else { Seq::empty() };
            assert(lines_here == seq![line@] + text_lines(tail));
            assert((seq![line@] + text_lines(tail)).drop_first() =~= text_lines(tail));
            if colon < line@.len() {
                assert(pair_views(out@) =~= pair_views(before).push(
                    (line@.take(colon as int), line@.skip(colon + 1)),
                ));
            } else {
                assert(pair_views(out@) =~= pair_views(before));
            }
        }
        start = if end < n { end + 1 } else { n };
        proof {
            if end >= n {
                assert(s@.skip(n as int) =~= Seq::<char>::empty());
            }
        }
    }
    out
}

} // verus!
