use order_sync::base::hash_str;
use order_sync::favorite::get_bazaar_url;
use order_sync::image::{cache_path_for, get_cache_path, get_image_url_ext};
use order_sync::items::{get_item_info_map, weapon_id_map};
use order_sync::model::{record_lines, CsvItemInfo, ItemInfo, UserLogData, UserLogDetails, UserLogEntry};
use order_sync::trade::{get_torn_coin_value, torn_log_trade_map, TORN_LOG_TRADE_ADD};

fn item(id: i32, weapon_type: &str, name: &str) -> ItemInfo {
    ItemInfo {
        id,
        name: name.to_string(),
        description: String::new(),
        effect: String::new(),
        requirement: String::new(),
        t: String::new(),
        weapon_type: weapon_type.to_string(),
        buy_price: 0,
        sell_price: 0,
        market_value: 0,
        circulation: 0,
        image: String::new(),
        tradeable: true,
    }
}

#[test]
fn image_extensions() {
    assert_eq!(get_image_url_ext("https://a.b/c/Icon.JPG?x=1.png"), "jpg");
    assert_eq!(get_image_url_ext("https://a.b/c/icon.webp"), "webp");
    assert_eq!(get_image_url_ext("https://a.b/c/icon.gif"), "png");
    assert_eq!(get_image_url_ext("noext"), "png");
}

#[test]
fn cache_paths() {
    assert_eq!(cache_path_for("http://x/y.svg", 42), "user://cache/image/42.svg");
    let url = "http://x/y.jpeg";
    assert_eq!(get_cache_path(url), format!("user://cache/image/{}.jpeg", hash_str(url)));
    assert_eq!(hash_str(url), hash_str(url));
}

#[test]
fn bazaar_urls() {
    assert_eq!(get_bazaar_url(123), "https://www.torn.com/bazaar.php?userId=123");
    assert_eq!(get_bazaar_url(-7), "https://www.torn.com/bazaar.php?userId=-7");
    assert_eq!(get_bazaar_url(0), "https://www.torn.com/bazaar.php?userId=0");
}

#[test]
fn catalogue_maps_keep_the_last_item_per_id() {
    let items = vec![item(1, "Primary", "a"), item(2, "", "b"), item(3, "Temporary", "c"), item(1, "Melee", "d")];
    let all = get_item_info_map(items.clone());
    assert_eq!(all.len(), 3);
    assert_eq!(all[&1].name, "d");
    let weapons = weapon_id_map(items);
    assert_eq!(weapons.len(), 1);
    assert_eq!(weapons[&1].name, "d");
}

#[test]
fn csv_rows_become_items() {
    let row = CsvItemInfo {
        id: 5,
        name: "n".to_string(),
        description: String::new(),
        effect: String::new(),
        requirement: String::new(),
        t: "Melee".to_string(),
        weapon_type: String::new(),
        buy_price: 1,
        sell_price: 2,
        market_value: 3,
        circulation: 4,
        image: String::new(),
        tradeable: "True".to_string(),
    };
    let info = ItemInfo::from(row);
    assert!(info.tradeable);
    assert_eq!(info.market_value, 3);
}

fn entry(id: u32, total: Option<u64>) -> UserLogEntry {
    UserLogEntry {
        id: String::new(),
        timestamp: 0,
        details: UserLogDetails { id, title: String::new(), category: String::new() },
        data: UserLogData { user: 0, money: None, total, description: None },
        params: serde_json::Value::Null,
    }
}

#[test]
fn trade_map_and_coin_value() {
    let m = torn_log_trade_map();
    assert_eq!(m.len(), 5);
    assert_eq!(m[&4442], TORN_LOG_TRADE_ADD);
    assert_eq!(get_torn_coin_value(&[entry(4400, Some(1)), entry(4443, Some(9))]), Some(9));
    assert_eq!(get_torn_coin_value(&[entry(4420, Some(1)), entry(4442, Some(9))]), None);
    assert_eq!(get_torn_coin_value(&[entry(1, Some(1))]), None);
    assert_eq!(get_torn_coin_value(&[]), None);
}

#[test]
fn response_records() {
    let r = record_lines("0:{\"a\":1}\r\n1:[1,2]\nnoise\n2:x:y\n");
    let pairs: Vec<(&str, &str)> = r.iter().map(|(a, b)| (a.as_str(), b.as_str())).collect();
    assert_eq!(pairs, vec![("0", "{\"a\":1}"), ("1", "[1,2]"), ("2", "x:y")]);
    assert!(record_lines("").is_empty());
}
