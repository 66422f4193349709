use portfolio_rs::market::cache::{Resolution, ResolutionCache};
use portfolio_rs::market::tickers::needs_ticker;
use portfolio_rs::parse::binance_rows::{read_convert_row, read_trade_row};
use portfolio_rs::parse::legs::{find_known, plan_convert, plan_trade, Leg, TradePart};
use portfolio_rs::schema::{Asset, AssetIdentifiers, AssetKind, Platform, Transaction, TransactionKind};
use portfolio_rs::time::{month_of_day, Timestamp, MAX_DAY, MIN_DAY};
use portfolio_rs::frequency::trade_periods;
use portfolio_rs::trades::trades_by_time;

fn row(pairs: &[(&str, &str)]) -> Vec<(String, String)> {
    pairs.iter().map(|(k, v)| (k.to_string(), v.to_string())).collect()
}

fn tx(id: Option<&str>, kind: TransactionKind, asset_kind: AssetKind, secs: i64, nanos: u32) -> Transaction<f64> {
    Transaction {
        platform: Platform::Binance,
        account_label: "Spot".to_string(),
        kind,
        asset: Asset {
            symbol: "BTC".to_string(),
            name: "BTC".to_string(),
            kind: asset_kind,
            ref_currency: "USD".to_string(),
            identifiers: AssetIdentifiers::none(),
        },
        quantity: 1.0,
        price: None,
        value_eur: 1.0,
        amount: None,
        quote_currency: None,
        time: Timestamp { secs, nanos },
        external_id: id.map(|s| s.to_string()),
        remark: None,
        source_file: "f".to_string(),
    }
}

fn trade_row() -> Vec<(String, String)> {
    row(&[
        ("Time", "2024-01-02 03:04:05"),
        ("Pair", "BTCEUR"),
        ("Side", "BUY"),
        ("Price", "40000"),
        ("Executed", "0.5BTC"),
        ("Amount", "20000EUR"),
        ("Fee", "0.001BNB"),
    ])
}

#[test]
fn known_transactions_are_found_by_identifier() {
    let known = vec![tx(None, TransactionKind::Buy, AssetKind::Crypto, 0, 0), tx(Some("a"), TransactionKind::Buy, AssetKind::Crypto, 0, 0), tx(Some("a"), TransactionKind::Sell, AssetKind::Crypto, 0, 0)];
    assert_eq!(find_known(&known, "a"), Some(1));
    assert_eq!(find_known(&known, "b"), None);
}

#[test]
fn a_known_trade_is_reused_and_its_fee_skipped() {
    let t = read_trade_row(&trade_row()).unwrap();
    let none: Vec<Transaction<f64>> = Vec::new();
    assert_eq!(plan_trade(&t, &none, true), vec![(TradePart::Trade, Leg::Make), (TradePart::Fee, Leg::Make)]);
    assert_eq!(plan_trade(&t, &none, false), vec![(TradePart::Trade, Leg::Make)]);
    let known = vec![tx(Some(&t.fee_id), TransactionKind::Fee, AssetKind::Crypto, 0, 0)];
    assert_eq!(plan_trade(&t, &known, true), vec![(TradePart::Trade, Leg::Make), (TradePart::Fee, Leg::Reuse(0))]);
    let known = vec![tx(Some("x"), TransactionKind::Buy, AssetKind::Crypto, 0, 0), tx(Some(&t.trade_id), TransactionKind::Buy, AssetKind::Crypto, 0, 0)];
    assert_eq!(plan_trade(&t, &known, true), vec![(TradePart::Trade, Leg::Reuse(1))]);
}

#[test]
fn a_convert_gives_its_sell_then_its_buy() {
    let r = row(&[
        ("Time", "2024-01-02 03:04:05"),
        ("Wallet", "Spot"),
        ("Pair", "USDC/ETH"),
        ("Sell", "100 USDC"),
        ("Buy", "0.04 ETH"),
        ("Price", "2500"),
        ("Status", "Successful"),
    ]);
    let c = read_convert_row(&r).unwrap().unwrap();
    let none: Vec<Transaction<f64>> = Vec::new();
    assert_eq!(plan_convert(&c, &none), vec![(true, Leg::Make), (false, Leg::Make)]);
    let known = vec![tx(Some(&c.buy_id), TransactionKind::Buy, AssetKind::Crypto, 0, 0)];
    assert_eq!(plan_convert(&c, &known), vec![(true, Leg::Make), (false, Leg::Reuse(0))]);
}

#[test]
fn trades_are_listed_by_second_then_by_log_order() {
    let txs = vec![
        tx(None, TransactionKind::Buy, AssetKind::Crypto, 30, 0),
        tx(None, TransactionKind::Fee, AssetKind::Crypto, 5, 0),
        tx(None, TransactionKind::Sell, AssetKind::Crypto, 10, 900),
        tx(None, TransactionKind::Buy, AssetKind::Cash, 1, 0),
        tx(None, TransactionKind::Buy, AssetKind::Crypto, 10, 100),
    ];
    // same second: log order, whatever the nanoseconds
    assert_eq!(trades_by_time(&txs), vec![2, 4, 0]);
}

#[test]
fn tickers_are_looked_up_for_non_cash_assets_without_one() {
    let mut a = tx(None, TransactionKind::Buy, AssetKind::Crypto, 0, 0).asset;
    assert!(needs_ticker(&a));
    a.identifiers.ticker = Some("BTC".to_string());
    assert!(!needs_ticker(&a));
    a.identifiers.ticker = None;
    a.kind = AssetKind::Cash;
    assert!(!needs_ticker(&a));
}

#[test]
fn months_of_epoch_days() {
    assert_eq!(month_of_day(0), (1970, 1));
    assert_eq!(month_of_day(31), (1970, 2));
    assert_eq!(month_of_day(-1), (1969, 12));
    assert_eq!(month_of_day(19_724), (2024, 1));
}

#[test]
fn months_at_leap_days_and_the_calendar_edges() {
    assert_eq!(month_of_day(19_782), (2024, 2));
    assert_eq!(month_of_day(19_783), (2024, 3));
    assert_eq!(month_of_day(-719_468), (0, 3));
    assert_eq!(month_of_day(-719_469), (0, 2));
    assert_eq!(month_of_day(MIN_DAY), (-262_143, 1));
    assert_eq!(month_of_day(MAX_DAY), (262_142, 12));
}

#[test]
fn a_bucket_holds_one_point() {
    let mut cache: ResolutionCache<f64> = ResolutionCache::empty(Resolution::Hour);
    cache.insert("BTC", 10, 1.0);
    cache.insert("btc", 3_599, 2.0);
    assert_eq!(cache.prices().range_since("BTC", i64::MIN), vec![(0, 2.0)]);
}

#[test]
fn a_window_ending_in_the_future_lists_only_later_points() {
    let mut cache: ResolutionCache<f64> = ResolutionCache::empty(Resolution::Day);
    let today = chrono::Utc::now().timestamp().div_euclid(86_400);
    cache.insert_date("X", today, 1.0);
    cache.insert_date("X", today + 10, 2.0);
    assert_eq!(cache.range_days("X", -5), vec![(today + 10, 2.0)]);
}

#[test]
fn trade_periods_fill_months_and_weeks_up_to_today() {
    // 2024-01-02 (a buy) and 2024-02-07 (a sell), today 2024-03-08.
    let (months, weeks) = trade_periods(&[19_724, 19_760], &[true, false], 19_790);
    let month_keys: Vec<i64> = months.iter().map(|g| g.key).collect();
    assert_eq!(month_keys, vec![2024 * 12, 2024 * 12 + 1, 2024 * 12 + 2]);
    assert_eq!(months[0].members, vec![0]);
    assert_eq!((months[0].buys, months[0].sells), (1, 0));
    assert_eq!(months[1].members, vec![1]);
    assert_eq!((months[1].buys, months[1].sells), (0, 1));
    assert!(months[2].members.is_empty());
    let week_keys: Vec<i64> = weeks.iter().map(|g| g.key).collect();
    assert_eq!(week_keys, (0..10).map(|k| 19_729 + 7 * k).collect::<Vec<i64>>());
    assert_eq!(weeks[0].members, vec![0]);
    assert_eq!(weeks[5].members, vec![1]);
    assert_eq!(weeks.iter().map(|g| g.members.len()).sum::<usize>(), 2);
}

#[test]
fn trade_periods_without_trades_are_empty() {
    let (months, weeks) = trade_periods(&[], &[], 19_790);
    assert!(months.is_empty());
    assert!(weeks.is_empty());
}
