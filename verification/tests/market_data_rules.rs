use backtester::ledger::TradeBook;
use backtester::market_data::{aggregates_url, cache_file_name, cache_key, plan_fetch, segment_days, trim_trailing_slashes, FileCache, RangeError};
use backtester::ordering::{first_per_time_order, time_order};
use backtester::requests::parse_timeframe;
use backtester::storage::RunStore;
use backtester::text::{bool_text, decimal_text};
use std::path::PathBuf;

#[test]
fn cache_file_names() {
    assert_eq!(cache_file_name("a:b/c\\d?e&f=g"), "a_b_c_d_e_f_g.json");
    assert_eq!(cache_file_name(""), ".json");
    assert_eq!(cache_file_name("plain-key"), "plain-key.json");
}

#[test]
fn cache_keys_and_urls() {
    let tf = parse_timeframe("5m").unwrap();
    assert_eq!(
        cache_key("X:BTCUSD", &tf, "2022-01-01", "2022-02-01", true),
        "aggs__ticker=X:BTCUSD__m=5__span=minute__from=2022-01-01__to=2022-02-01__adj=true"
    );
    let day = parse_timeframe("1D").unwrap();
    assert_eq!(
        aggregates_url("https://api.polygon.io//", "X:BTC USD", &day, "2022-01-01", "2022-02-01"),
        "https://api.polygon.io/v2/aggs/ticker/X%3ABTC%20USD/range/1/day/2022-01-01/2022-02-01"
    );
    assert_eq!(
        aggregates_url("http://h", "BRK.B~x_y-z", &day, "a", "b"),
        "http://h/v2/aggs/ticker/BRK.B~x_y-z/range/1/day/a/b"
    );
    assert_eq!(trim_trailing_slashes("///"), "");
    assert_eq!(trim_trailing_slashes("a/b"), "a/b");
    assert_eq!(decimal_text(0), "0");
    assert_eq!(decimal_text(1_234_567), "1234567");
    assert_eq!(decimal_text(u64::MAX), u64::MAX.to_string());
    assert_eq!(bool_text(false), "false");
}

#[test]
fn day_segments() {
    assert_eq!(segment_days(0, 70, 30), vec![(0, 30), (31, 61), (62, 70)]);
    assert_eq!(segment_days(5, 5, 30), vec![(5, 5)]);
    assert_eq!(segment_days(6, 5, 30), vec![]);
    assert_eq!(segment_days(0, 240, 120), vec![(0, 120), (121, 240)]);
}

#[test]
fn fetch_plans() {
    let one_min = parse_timeframe("1m").unwrap();
    let p = plan_fetch(&one_min, "2022-01-01", "2022-03-15").unwrap();
    assert!(p.merge);
    let segs: Vec<(String, String)> = p.segments;
    assert_eq!(
        segs,
        vec![
            ("2022-01-01".to_string(), "2022-01-31".to_string()),
            ("2022-02-01".to_string(), "2022-03-03".to_string()),
            ("2022-03-04".to_string(), "2022-03-15".to_string()),
        ]
    );
    let five = parse_timeframe("5m").unwrap();
    let p = plan_fetch(&five, "2022-01-01", "2022-06-01").unwrap();
    assert_eq!(p.segments.len(), 2);
    assert_eq!(p.segments[0], ("2022-01-01".to_string(), "2022-05-01".to_string()));
    assert_eq!(p.segments[1], ("2022-05-02".to_string(), "2022-06-01".to_string()));
    let day = parse_timeframe("1D").unwrap();
    let p = plan_fetch(&day, "whatever", "2022-06-01").unwrap();
    assert!(!p.merge);
    assert_eq!(p.segments, vec![("whatever".to_string(), "2022-06-01".to_string())]);
    assert_eq!(plan_fetch(&five, "2022-1-x", "2022-06-01").unwrap_err(), RangeError::BadStart);
    assert_eq!(plan_fetch(&five, "2022-01-01", "nope").unwrap_err(), RangeError::BadEnd);
    assert!(plan_fetch(&five, "2022-06-01", "2022-01-01").unwrap().segments.is_empty());
}

#[test]
fn expiry_of_cache_and_runs() {
    let cache = FileCache::new(PathBuf::from("/tmp/cache"), 30);
    assert_eq!(cache.base_dir(), &PathBuf::from("/tmp/cache"));
    assert_eq!(cache.lifetime_days(), 30);
    assert!(cache.key_path("a:b").ends_with("a_b.json"));
    let ttl = 30 * 24 * 3600;
    assert!(!cache.is_expired(ttl, 0));
    assert!(cache.is_expired(ttl, 1));
    assert!(cache.is_expired(ttl + 1, 0));
    assert!(!cache.is_expired(0, 999_999_999));

    let store = RunStore::new(PathBuf::from("/data"), 24);
    assert_eq!(store.base_dir(), &PathBuf::from("/data/runs"));
    assert_eq!(store.lifetime_hours(), 24);
    assert_eq!(store.run_dir("abc"), PathBuf::from("/data/runs/abc"));
    assert!(!store.is_expired(24 * 3600, 0));
    assert!(store.is_expired(24 * 3600, 5));
}

#[test]
fn bar_ordering() {
    let ts = vec![30, 10, 20, 10, 30, 5];
    assert_eq!(time_order(&ts), vec![5, 1, 3, 2, 0, 4]);
    assert_eq!(first_per_time_order(&ts), vec![5, 1, 2, 0]);
    assert!(time_order(&vec![]).is_empty());
    assert_eq!(first_per_time_order(&vec![7, 7, 7]), vec![0]);
}

#[test]
fn trade_book_reopens_after_flat() {
    let mut book = TradeBook::new();
    assert_eq!(book.on_position(1, 10, -1).opened, Some(1));
    assert_eq!(book.on_position(2, 20, 0).closed.unwrap().holding_period_bars, 1);
    let u = book.on_position(4, 40, 1);
    assert_eq!(u.opened, Some(2));
    let open = book.open.unwrap();
    assert_eq!((open.id, open.direction, open.entry_index, open.entry_time), (2, 1, 4, 40));
}

#[test]
fn run_store_lives_under_runs() {
    let store = RunStore::new(PathBuf::from("data"), 1);
    assert_eq!(store.base_dir(), &PathBuf::from("data").join("runs"));
    let parts: Vec<String> = store.run_dir("r1").components().map(|c| c.as_os_str().to_string_lossy().into_owned()).collect();
    assert_eq!(parts, vec!["data".to_string(), "runs".to_string(), "r1".to_string()]);
}

#[test]
fn cache_lives_under_cache() {
    let dir = FileCache::dir_under(&PathBuf::from("/data"));
    assert_eq!(dir, PathBuf::from("/data/cache"));
}
