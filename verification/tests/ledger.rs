use portfolio_rs::history::{earliest_tx_date, week_end, weeks_to_backfill};
use portfolio_rs::ledger::positions::{replay_order, sign};
use portfolio_rs::schema::{
    Asset, AssetIdentifiers, AssetKind, Platform, Transaction, TransactionKind,
};
use portfolio_rs::store::serialize::TxStore;
use portfolio_rs::time::{day_of, Timestamp};
use portfolio_rs::trades::{is_trade, months_between, trade_txs, week_ends_between};

fn asset(symbol: &str, kind: AssetKind) -> Asset {
    Asset {
        symbol: symbol.to_string(),
        name: symbol.to_string(),
        kind,
        ref_currency: "EUR".to_string(),
        identifiers: AssetIdentifiers::none(),
    }
}

fn tx(id: Option<&str>, symbol: &str, kind: TransactionKind, secs: i64, qty: f64) -> Transaction<f64> {
    Transaction {
        platform: Platform::Manual,
        account_label: "main".to_string(),
        kind,
        asset: asset(symbol, AssetKind::Crypto),
        quantity: qty,
        price: None,
        value_eur: qty,
        amount: None,
        quote_currency: None,
        time: Timestamp { secs, nanos: 0 },
        external_id: id.map(|s| s.to_string()),
        remark: None,
        source_file: "f.json".to_string(),
    }
}

// --- time ---

#[test]
fn day_of_floors_to_the_epoch_day() {
    assert_eq!(day_of(0), 0);
    assert_eq!(day_of(86_399), 0);
    assert_eq!(day_of(86_400), 1);
    assert_eq!(day_of(-1), -1);
    assert_eq!(Timestamp { secs: 1_704_164_645, nanos: 0 }.day(), 19_724);
}

// --- weekly history ---

#[test]
fn week_end_is_the_following_sunday() {
    // 1970-01-01 (day 0) was a Thursday; day 3 was a Sunday.
    assert_eq!(week_end(0), 3);
    assert_eq!(week_end(3), 3);
    assert_eq!(week_end(4), 10);
    assert_eq!(week_end(-1), 3);
    assert_eq!(week_end(-4), -4);
}

#[test]
fn weeks_to_backfill_skips_done_weeks_and_the_current_one() {
    // start on day 0 (week ending day 3), today is day 25 (week ending 31).
    assert_eq!(weeks_to_backfill(0, 25, &[]), vec![3, 10, 17, 24]);
    assert_eq!(weeks_to_backfill(0, 25, &[10, 24]), vec![3, 17]);
    assert_eq!(weeks_to_backfill(20, 25, &[]), vec![24]);
    assert_eq!(weeks_to_backfill(30, 25, &[]), Vec::<i64>::new());
}

#[test]
fn earliest_tx_date_is_the_day_of_the_first_transaction() {
    let txs = vec![
        tx(None, "BTC", TransactionKind::Buy, 5 * 86_400 + 10, 1.0),
        tx(None, "BTC", TransactionKind::Buy, 2 * 86_400 + 99, 1.0),
        tx(None, "BTC", TransactionKind::Sell, 9 * 86_400, 1.0),
    ];
    assert_eq!(earliest_tx_date(&txs), Some(2));
    assert_eq!(earliest_tx_date::<f64>(&[]), None);
}

// --- trades ---

#[test]
fn trades_are_buys_and_sells_of_non_cash_assets() {
    let mut cash = tx(None, "EUR", TransactionKind::Buy, 0, 1.0);
    cash.asset.kind = AssetKind::Cash;
    let txs = vec![
        tx(None, "BTC", TransactionKind::Buy, 0, 1.0),
        tx(None, "BTC", TransactionKind::Fee, 0, 1.0),
        cash,
        tx(None, "ETH", TransactionKind::Sell, 0, 1.0),
    ];
    assert!(is_trade(&txs[0]));
    assert!(!is_trade(&txs[1]));
    assert!(!is_trade(&txs[2]));
    assert_eq!(trade_txs(&txs), vec![0, 3]);
}

#[test]
fn months_between_walks_across_years() {
    assert_eq!(months_between((2023, 11), (2024, 2)), vec![(2023, 11), (2023, 12), (2024, 1), (2024, 2)]);
    assert_eq!(months_between((2024, 3), (2024, 3)), vec![(2024, 3)]);
    assert_eq!(months_between((2024, 3), (2024, 2)), Vec::<(i32, u32)>::new());
}

#[test]
fn week_ends_between_lists_every_sunday() {
    assert_eq!(week_ends_between(0, 12), vec![3, 10, 17]);
    assert_eq!(week_ends_between(12, 0), Vec::<i64>::new());
}

// --- positions ---

#[test]
fn sign_adds_buys_and_deposits() {
    assert_eq!(sign(TransactionKind::Buy), 1);
    assert_eq!(sign(TransactionKind::Deposit), 1);
    assert_eq!(sign(TransactionKind::Sell), -1);
    assert_eq!(sign(TransactionKind::Withdraw), -1);
    assert_eq!(sign(TransactionKind::Fee), -1);
}

#[test]
fn replay_order_is_a_stable_sort_by_time_with_a_cutoff() {
    let txs = vec![
        tx(None, "A", TransactionKind::Buy, 30, 1.0),
        tx(None, "A", TransactionKind::Buy, 10, 1.0),
        tx(None, "A", TransactionKind::Sell, 30, 1.0),
        tx(None, "A", TransactionKind::Buy, 20, 1.0),
    ];
    assert_eq!(replay_order(&txs, None), vec![1, 3, 0, 2]);
    assert_eq!(replay_order(&txs, Some(Timestamp { secs: 20, nanos: 0 })), vec![1, 3]);
    assert_eq!(replay_order(&txs, Some(Timestamp { secs: 5, nanos: 0 })), Vec::<usize>::new());
}

// --- the transaction store ---

#[test]
fn adding_the_same_export_twice_adds_nothing_the_second_time() {
    let mut store: TxStore<f64> = TxStore::new();
    let batch = || {
        vec![
            tx(Some("a"), "BTC", TransactionKind::Buy, 1, 1.0),
            tx(Some("b"), "BTC", TransactionKind::Sell, 2, 0.5),
            tx(Some("a"), "BTC", TransactionKind::Buy, 1, 1.0),
            tx(None, "ETH", TransactionKind::Buy, 3, 2.0),
        ]
    };
    assert_eq!(store.add_transactions(batch()), 3);
    assert_eq!(store.transactions().len(), 3);
    assert!(store.is_known("a"));
    assert!(store.is_known("b"));
    assert!(!store.is_known("c"));
    // the transaction without an identifier is added again
    assert_eq!(store.add_transactions(batch()), 1);
    assert_eq!(store.transactions().len(), 4);
}

#[test]
fn stored_transactions_carry_the_registered_asset() {
    let mut store: TxStore<f64> = TxStore::new();
    let first = store.find_or_create_asset("BTC", "Bitcoin", AssetKind::Crypto, "USD", AssetIdentifiers::none());
    assert_eq!(first.name, "Bitcoin");
    let again = store.find_or_create_asset("BTC", "Other", AssetKind::Stock, "EUR", AssetIdentifiers::none());
    assert_eq!(again.name, "Bitcoin");
    assert_eq!(store.assets().len(), 1);

    store.add_transactions(vec![tx(Some("x"), "BTC", TransactionKind::Buy, 1, 1.0)]);
    assert_eq!(store.transactions()[0].asset.name, "Bitcoin");
    assert_eq!(store.transactions()[0].asset.ref_currency, "USD");

    store.add_transactions(vec![tx(Some("y"), "SOL", TransactionKind::Buy, 1, 1.0)]);
    assert_eq!(store.assets().len(), 2);
    assert_eq!(store.asset("SOL").map(|a| a.name.clone()), Some("SOL".to_string()));
}

#[test]
fn set_ticker_updates_only_registered_assets() {
    let mut store: TxStore<f64> = TxStore::new();
    store.find_or_create_asset("AIR.FR", "Airbus", AssetKind::Stock, "EUR", AssetIdentifiers::none());
    assert!(store.set_ticker("AIR.FR", "AIR.PA".to_string()));
    assert_eq!(store.asset("AIR.FR").unwrap().identifiers.ticker.as_deref(), Some("AIR.PA"));
    assert!(!store.set_ticker("NOPE", "X".to_string()));
    assert!(store.asset("NOPE").is_none());
}

// --- names ---

#[test]
fn names_are_written_as_in_exports() {
    assert_eq!(Platform::Binance.as_str(), "Binance");
    assert_eq!(Platform::Xtb.as_str(), "Xtb");
    assert_eq!(TransactionKind::Withdraw.as_str(), "Withdraw");
    assert_eq!(AssetKind::Cash.as_str(), "Cash");
    assert!(AssetIdentifiers::default().isin.is_none());
}

#[test]
fn backfilling_twice_lists_nothing_the_second_time() {
    let done = vec![10];
    let first = weeks_to_backfill(0, 40, &done);
    assert_eq!(first, vec![3, 17, 24, 31, 38]);
    let mut all = done.clone();
    all.extend(first);
    assert_eq!(weeks_to_backfill(0, 40, &all), Vec::<i64>::new());
}

#[test]
fn the_replay_up_to_an_instant_starts_the_full_replay() {
    let txs = vec![
        tx(None, "A", TransactionKind::Buy, 30, 1.0),
        tx(None, "A", TransactionKind::Buy, 10, 1.0),
        tx(None, "A", TransactionKind::Sell, 20, 1.0),
        tx(None, "A", TransactionKind::Buy, 20, 1.0),
        tx(None, "A", TransactionKind::Buy, 40, 1.0),
    ];
    let full = replay_order(&txs, None);
    for t in [0, 10, 15, 20, 30, 40, 50] {
        let cut = replay_order(&txs, Some(Timestamp { secs: t, nanos: 0 }));
        assert_eq!(cut[..], full[..cut.len()]);
    }
}
