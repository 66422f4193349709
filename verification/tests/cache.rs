use chrono::{NaiveDate, Utc};
use portfolio_rs::market::cache::{is_live_bucket, PriceCache, Resolution, ResolutionCache};

fn hours(n: i64) -> i64 {
    n * 3_600
}

fn days(n: i64) -> i64 {
    n * 86_400
}

fn epoch_day(d: NaiveDate) -> i64 {
    (d - NaiveDate::from_ymd_opt(1970, 1, 1).unwrap()).num_days()
}

// --- get_exact vs get_closest ---

#[test]
fn get_exact_only_matches_the_same_bucket() {
    let mut cache: ResolutionCache<f64> = ResolutionCache::empty(Resolution::Hour);
    let ts0 = 0;

    cache.insert("BTC", ts0, 100.0);

    assert_eq!(cache.get_exact("BTC", ts0), Some(100.0));
    assert_eq!(cache.get_exact("BTC", ts0 + hours(1)), None);
}

#[test]
fn get_closest_reuses_the_last_known_value_across_buckets() {
    let mut cache: ResolutionCache<f64> = ResolutionCache::empty(Resolution::Hour);
    let ts0 = 0;

    cache.insert("BTC", ts0, 100.0);

    assert_eq!(cache.get_closest("BTC", ts0 + hours(5)), Some(100.0));
}

#[test]
fn get_closest_never_returns_a_future_point() {
    let mut cache: ResolutionCache<f64> = ResolutionCache::empty(Resolution::Hour);
    cache.insert("BTC", hours(10), 100.0);

    assert_eq!(cache.get_closest("BTC", 0), None);
}

#[test]
fn symbol_lookup_is_case_insensitive() {
    let mut cache: ResolutionCache<f64> = ResolutionCache::empty(Resolution::Hour);
    cache.insert("btc", 0, 42.0);

    assert_eq!(cache.get_exact("BTC", 0), Some(42.0));
    assert_eq!(cache.get_closest("Btc", 0), Some(42.0));
}

#[test]
fn insert_aligns_timestamps_to_the_resolution_bucket() {
    let mut cache: ResolutionCache<f64> = ResolutionCache::empty(Resolution::Hour);
    cache.insert("BTC", 0, 100.0);
    cache.insert("BTC", 1_800, 200.0);

    assert_eq!(cache.get_exact("BTC", 0), Some(200.0));
}

#[test]
fn is_live_bucket_detects_the_current_hour_only() {
    let now_aligned = Resolution::Hour.align(Utc::now().timestamp());

    assert!(is_live_bucket(now_aligned, Resolution::Hour));
    assert!(!is_live_bucket(now_aligned - hours(2), Resolution::Hour));
}

#[test]
fn earliest_and_latest_track_the_full_inserted_range() {
    let mut cache: ResolutionCache<f64> = ResolutionCache::empty(Resolution::Day);
    cache.insert("AAPL", days(10), 1.0);
    cache.insert("AAPL", days(20), 2.0);
    cache.insert("AAPL", days(15), 1.5);

    assert_eq!(cache.earliest("AAPL"), Some(days(10)));
    assert_eq!(cache.latest("AAPL"), Some(days(20)));
}

#[test]
fn range_days_excludes_points_older_than_the_window() {
    let mut cache: ResolutionCache<f64> = ResolutionCache::empty(Resolution::Day);
    let today = epoch_day(Utc::now().date_naive());

    cache.insert_date("AAPL", today - 100, 1.0);
    cache.insert_date("AAPL", today - 5, 2.0);

    let range = cache.range_days("AAPL", 30);
    let dates: Vec<i64> = range.iter().map(|(d, _)| *d).collect();

    assert!(!dates.contains(&(today - 100)));
    assert!(dates.contains(&(today - 5)));
}

#[test]
fn unknown_symbol_returns_none_everywhere() {
    let cache: ResolutionCache<f64> = ResolutionCache::empty(Resolution::Hour);

    assert_eq!(cache.get_exact("DOES_NOT_EXIST", 0), None);
    assert_eq!(cache.get_closest("DOES_NOT_EXIST", 0), None);
    assert_eq!(cache.latest("DOES_NOT_EXIST"), None);
    assert_eq!(cache.earliest("DOES_NOT_EXIST"), None);
}

// --- further cases ---

#[test]
fn align_rounds_down_to_the_bucket_start() {
    assert_eq!(Resolution::Hour.align(7_199), 3_600);
    assert_eq!(Resolution::Hour.align(7_200), 7_200);
    assert_eq!(Resolution::Day.align(86_399), 0);
    assert_eq!(Resolution::Day.align(-1), -86_400);
    assert_eq!(Resolution::Hour.align(-3_601), -7_200);
    assert_eq!(Resolution::Hour.seconds(), 3_600);
    assert_eq!(Resolution::Day.seconds(), 86_400);
}

#[test]
fn checked_align_fails_only_near_the_lowest_instant() {
    assert_eq!(Resolution::Hour.checked_align(7_199), Some(3_600));
    assert_eq!(Resolution::Day.checked_align(-1), Some(-86_400));
    assert_eq!(Resolution::Hour.checked_align(i64::MIN), None);
    assert_eq!(Resolution::Day.checked_align(i64::MIN + 55_807), None);
    assert_eq!(Resolution::Day.checked_align(i64::MIN + 55_808), Some(i64::MIN + 55_808));
    let lowest_hour = i64::MIN - i64::MIN.rem_euclid(3_600) + 3_600;
    assert_eq!(Resolution::Hour.checked_align(lowest_hour), Some(lowest_hour));
}

#[test]
fn aligning_twice_is_aligning_once() {
    for ts in [-90_000i64, -1, 0, 1, 3_599, 3_600, 123_456_789] {
        for r in [Resolution::Hour, Resolution::Day] {
            assert_eq!(r.align(r.align(ts)), r.align(ts));
        }
    }
}

#[test]
fn get_closest_picks_the_latest_point_before_the_bucket() {
    let mut cache: ResolutionCache<f64> = ResolutionCache::empty(Resolution::Hour);
    cache.insert("ETH", hours(1), 1.0);
    cache.insert("ETH", hours(3), 3.0);
    cache.insert("ETH", hours(5), 5.0);

    assert_eq!(cache.get_closest("ETH", hours(4) + 10), Some(3.0));
    assert_eq!(cache.get_closest("ETH", hours(3)), Some(3.0));
    assert_eq!(cache.get_closest("ETH", hours(100)), Some(5.0));
    assert_eq!(cache.get_closest("ETH", hours(1) - 1), None);
}

#[test]
fn other_symbols_are_left_alone_by_an_insert() {
    let mut cache: ResolutionCache<f64> = ResolutionCache::empty(Resolution::Hour);
    cache.insert("BTC", 0, 1.0);
    cache.insert("ETH", 0, 2.0);
    cache.insert("BTC", 0, 3.0);

    assert_eq!(cache.get_exact("ETH", 0), Some(2.0));
    assert_eq!(cache.get_exact("btc", 0), Some(3.0));
}

#[test]
fn price_cache_range_since_is_sorted_and_cut() {
    let mut cache: PriceCache<f64> = PriceCache::new();
    cache.insert("x", 30, 3.0);
    cache.insert("X", 10, 1.0);
    cache.insert("x", 20, 2.0);

    assert_eq!(cache.range_since("X", 15), vec![(20, 2.0), (30, 3.0)]);
    assert_eq!(cache.range_since("X", i64::MIN), vec![(10, 1.0), (20, 2.0), (30, 3.0)]);
    assert_eq!(cache.range_since("Y", 0), Vec::<(i64, f64)>::new());
    assert_eq!(cache.symbols(), vec!["X".to_string()]);
    assert_eq!(cache.earliest_ts("x"), Some(10));
    assert_eq!(cache.latest_ts("x"), Some(30));
}

#[test]
fn range_days_at_reports_epoch_days() {
    let mut cache: ResolutionCache<f64> = ResolutionCache::empty(Resolution::Day);
    cache.insert_date("AAPL", 100, 1.0);
    cache.insert_date("AAPL", 105, 2.0);
    cache.insert_date("AAPL", 110, 3.0);
    // window of 6 days ending on day 110 at noon: from day 104 on
    let now = days(110) + 43_200;
    assert_eq!(cache.range_days_at("AAPL", 6, now), vec![(105, 2.0), (110, 3.0)]);
}
