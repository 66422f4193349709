use chrono::{TimeZone, Utc};
use portfolio_rs::market::cache::{daily_closes_cached, Resolution, ResolutionCache};
use portfolio_rs::market::prices::{
    cash_pricing, closest_at_or_before, normalize_currency_for_fx, price_source_at, rate_source_at,
    zip_points, CashPricing, PriceSource, RateSource,
};
use portfolio_rs::schema::AssetKind;
use std::sync::atomic::{AtomicUsize, Ordering};
use portfolio_rs::market::prices::cash_pricing_upper;

// --- pure functions ---

#[test]
fn normalize_currency_for_fx_converts_pence_to_pounds() {
    let (currency, factor) = normalize_currency_for_fx("GBp");
    assert_eq!(currency, "GBP");
    assert_eq!(1.0 / factor as f64, 0.01);

    let (currency, factor) = normalize_currency_for_fx("GBX");
    assert_eq!(currency, "GBP");
    assert_eq!(1.0 / factor as f64, 0.01);
}

#[test]
fn normalize_currency_for_fx_leaves_other_currencies_untouched() {
    let (currency, factor) = normalize_currency_for_fx("EUR");
    assert_eq!(currency, "EUR");
    assert_eq!(1.0 / factor as f64, 1.0);

    let (currency, factor) = normalize_currency_for_fx("USD");
    assert_eq!(currency, "USD");
    assert_eq!(1.0 / factor as f64, 1.0);
}

#[test]
fn closest_at_or_before_picks_the_latest_point_not_after_ts() {
    let points = vec![(10, 1.0), (20, 2.0), (30, 3.0)];

    assert_eq!(closest_at_or_before(&points, 25), Some(2.0));
    assert_eq!(closest_at_or_before(&points, 30), Some(3.0));
}

#[test]
fn closest_at_or_before_returns_none_if_everything_is_in_the_future() {
    let points = vec![(10, 1.0), (20, 2.0)];
    assert_eq!(closest_at_or_before(&points, 5), None);
}

// --- daily_closes_cached: the fetch is handed in, so no network is needed ---

fn fake_points(days_back: i64, count: i64) -> Vec<(i64, f64)> {
    let today = Utc::now().date_naive();
    (0..count)
        .map(|i| {
            let day = today - chrono::Duration::days(days_back - i);
            let ts = Utc.from_utc_datetime(&day.and_hms_opt(0, 0, 0).unwrap()).timestamp();
            (ts, 100.0)
        })
        .collect()
}

#[test]
fn daily_closes_cached_fetches_once_on_a_cold_cache() {
    let mut cache = ResolutionCache::<f64>::empty(Resolution::Day);
    let key = "TEST:cold_cache";
    let calls = AtomicUsize::new(0);

    let result = daily_closes_cached(&mut cache, key, 10, |_start_ts| {
        calls.fetch_add(1, Ordering::SeqCst);
        Ok::<_, String>(fake_points(15, 16))
    });

    assert!(result.is_ok());
    assert_eq!(calls.load(Ordering::SeqCst), 1);
    assert!(!result.unwrap().is_empty());
}

#[test]
fn daily_closes_cached_does_not_refetch_when_fresh_and_deep_enough() {
    let mut cache = ResolutionCache::<f64>::empty(Resolution::Day);
    let key = "TEST:no_refetch_needed";
    let calls = AtomicUsize::new(0);

    let _ = daily_closes_cached(&mut cache, key, 30, |_start_ts| {
        calls.fetch_add(1, Ordering::SeqCst);
        Ok::<_, String>(fake_points(39, 40))
    });
    assert_eq!(calls.load(Ordering::SeqCst), 1);

    let _ = daily_closes_cached(&mut cache, key, 30, |_start_ts| {
        calls.fetch_add(1, Ordering::SeqCst);
        Ok::<_, String>(Vec::new())
    });
    assert_eq!(calls.load(Ordering::SeqCst), 1);
}

#[test]
fn daily_closes_cached_refetches_when_a_deeper_history_is_requested() {
    let mut cache = ResolutionCache::<f64>::empty(Resolution::Day);
    let key = "TEST:refetch_on_deeper_request";
    let calls = AtomicUsize::new(0);

    let _ = daily_closes_cached(&mut cache, key, 10, |_start_ts| {
        calls.fetch_add(1, Ordering::SeqCst);
        Ok::<_, String>(fake_points(14, 15))
    });
    assert_eq!(calls.load(Ordering::SeqCst), 1);

    let _ = daily_closes_cached(&mut cache, key, 365, |_start_ts| {
        calls.fetch_add(1, Ordering::SeqCst);
        Ok::<_, String>(Vec::new())
    });
    assert_eq!(calls.load(Ordering::SeqCst), 2);
}

#[test]
fn daily_closes_cached_refetches_when_the_cache_is_stale() {
    let mut cache = ResolutionCache::<f64>::empty(Resolution::Day);
    let key = "TEST:refetch_on_stale_cache";
    let calls = AtomicUsize::new(0);

    let old_day = Utc::now().date_naive() - chrono::Duration::days(5);
    let ts = Utc.from_utc_datetime(&old_day.and_hms_opt(0, 0, 0).unwrap()).timestamp();
    let _ = daily_closes_cached(&mut cache, key, 10, |_start_ts| {
        calls.fetch_add(1, Ordering::SeqCst);
        Ok::<_, String>(vec![(ts, 100.0)])
    });
    assert_eq!(calls.load(Ordering::SeqCst), 1);

    let _ = daily_closes_cached(&mut cache, key, 10, |_start_ts| {
        calls.fetch_add(1, Ordering::SeqCst);
        Ok::<_, String>(Vec::new())
    });
    assert_eq!(calls.load(Ordering::SeqCst), 2);
}

// --- further cases ---

#[test]
fn a_failed_fetch_leaves_the_cache_empty() {
    let mut cache = ResolutionCache::<f64>::empty(Resolution::Day);
    let result = daily_closes_cached(&mut cache, "X", 10, |_start_ts| {
        Err::<Vec<(i64, f64)>, String>("offline".to_string())
    });
    assert_eq!(result, Err("offline".to_string()));
    assert_eq!(cache.latest("X"), None);
}

#[test]
fn the_refresh_starts_five_days_before_the_window() {
    let mut cache = ResolutionCache::<f64>::empty(Resolution::Day);
    let seen = AtomicUsize::new(0);
    let now = Utc::now().timestamp();
    let _ = daily_closes_cached(&mut cache, "X", 10, |start_ts| {
        seen.store(start_ts as usize, Ordering::SeqCst);
        Ok::<_, String>(Vec::new())
    });
    let cutoff = Resolution::Day.align(now - 10 * 86_400);
    assert_eq!(seen.load(Ordering::SeqCst) as i64, cutoff - 5 * 86_400);
}

#[test]
fn fetched_points_are_stored_at_midnight() {
    let mut cache = ResolutionCache::<f64>::empty(Resolution::Day);
    let today = Utc::now().date_naive();
    let noon = Utc.from_utc_datetime(&today.and_hms_opt(12, 0, 0).unwrap()).timestamp();
    let r = daily_closes_cached(&mut cache, "abc", 3, |_start_ts| Ok::<_, String>(vec![(noon, 7.5)]))
        .unwrap();
    assert_eq!(cache.get_exact("ABC", noon - 43_200), Some(7.5));
    assert_eq!(r.last().map(|p| p.1), Some(7.5));
}

#[test]
fn normalize_currency_for_fx_is_case_sensitive_on_pence() {
    assert_eq!(normalize_currency_for_fx("GBp"), ("GBP".to_string(), 100));
    assert_eq!(normalize_currency_for_fx("gbx"), ("gbx".to_string(), 1));
    assert_eq!(normalize_currency_for_fx("GBP"), ("GBP".to_string(), 1));
}

#[test]
fn closest_at_or_before_handles_empty_and_unsorted_input() {
    let empty: Vec<(i64, f64)> = Vec::new();
    assert_eq!(closest_at_or_before(&empty, 5), None);
    let points = vec![(30, 3.0), (10, 1.0), (20, 2.0)];
    assert_eq!(closest_at_or_before(&points, 25), Some(2.0));
    let ties = vec![(10, 1.0), (10, 4.0)];
    assert_eq!(closest_at_or_before(&ties, 10), Some(4.0));
}

#[test]
fn cash_pricing_recognises_currencies() {
    assert_eq!(cash_pricing("eur"), CashPricing::Par);
    assert_eq!(cash_pricing("EURI"), CashPricing::Par);
    assert_eq!(cash_pricing("usdt"), CashPricing::InverseUsdRate);
    assert_eq!(cash_pricing("GBP"), CashPricing::InverseGbpRate);
    assert_eq!(cash_pricing("AAPL"), CashPricing::Unpriced);
}

#[test]
fn zip_points_drops_missing_closes() {
    let ts = vec![1, 2, 3];
    let closes = vec![Some(1.0), None, Some(3.0)];
    assert_eq!(zip_points(&ts, &closes), vec![(1, 1.0), (3, 3.0)]);
}

#[test]
fn a_refresh_only_adds_points() {
    let mut cache = ResolutionCache::<f64>::empty(Resolution::Day);
    let today = Utc::now().timestamp().div_euclid(86_400);
    cache.insert_date("OTHER", today - 3, 1.0);
    cache.insert_date("KEY", today - 400, 2.0);
    let _ = daily_closes_cached(&mut cache, "KEY", 10, |_start_ts| {
        Ok::<_, String>(fake_points(12, 13))
    });
    assert_eq!(cache.get_exact("OTHER", (today - 3) * 86_400), Some(1.0));
    assert_eq!(cache.get_exact("KEY", (today - 400) * 86_400), Some(2.0));
    assert_eq!(cache.earliest("KEY"), Some((today - 400) * 86_400));
    assert_eq!(cache.latest("KEY"), Some(today * 86_400));
}

#[test]
fn price_sources_follow_the_asset_and_the_cache() {
    let mut cache = ResolutionCache::<f64>::empty(Resolution::Hour);
    cache.insert("BTC", 7_200, 50.0);
    let now = 100 * 3_600;
    assert!(matches!(price_source_at(&cache, "eur", AssetKind::Cash, None, 7_200, now), PriceSource::Cash(CashPricing::Par)));
    // a past bucket is served by the latest point before it
    assert!(matches!(price_source_at(&cache, "btc", AssetKind::Crypto, None, 9_000, now), PriceSource::Cached(p) if p == 50.0));
    // the current bucket needs a point of its own
    assert!(matches!(price_source_at(&cache, "BTC", AssetKind::Crypto, None, now + 5, now), PriceSource::Binance));
    assert!(matches!(price_source_at(&cache, "AIR", AssetKind::Stock, Some("AIR.PA"), 3_600, now), PriceSource::Yahoo(t) if t == "AIR.PA"));
    assert!(matches!(price_source_at(&cache, "AIR", AssetKind::Stock, None, 3_600, now), PriceSource::Unavailable));
}

#[test]
fn rate_sources_go_through_the_pound() {
    let mut cache = ResolutionCache::<f64>::empty(Resolution::Hour);
    cache.insert("USD", 0, 1.1);
    let now = 100 * 3_600;
    assert!(matches!(rate_source_at(&cache, "EUR", 3_600, now), RateSource::Unit));
    assert!(matches!(rate_source_at(&cache, "USD", 3_600, now), RateSource::Cached(r) if r == 1.1));
    match rate_source_at(&cache, "GBX", 3_600, now) {
        RateSource::Fetch { pair, currency } => {
            assert_eq!(pair, "EURGBP=X");
            assert_eq!(currency, "GBP");
        }
        other => panic!("unexpected {other:?}"),
    }
}

#[test]
fn cash_rules_by_upper_case_symbol() {
    assert_eq!(cash_pricing_upper("BUSD"), CashPricing::InverseUsdRate);
    assert_eq!(cash_pricing_upper("busd"), CashPricing::Unpriced);
}
