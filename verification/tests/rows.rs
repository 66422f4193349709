use portfolio_rs::parse::binance::synthetic_id;
use portfolio_rs::parse::binance_rows::{
    convert_leg, fee_transaction, read_convert_row, read_trade_row, trade_transaction,
};
use portfolio_rs::parse::manual::{manual_transaction, ManualEntry};
use portfolio_rs::parse::xtb::cash_transaction;
use portfolio_rs::parse::ParseError;
use portfolio_rs::schema::{AssetKind, Platform, TransactionKind};
use portfolio_rs::time::Timestamp;
use portfolio_rs::trades::{group_by_period, month_key, month_of_key};

fn row(pairs: &[(&str, &str)]) -> Vec<(String, String)> {
    pairs.iter().map(|(k, v)| (k.to_string(), v.to_string())).collect()
}

fn trade_row() -> Vec<(String, String)> {
    row(&[
        ("Time", "2024-01-02 03:04:05"),
        ("Pair", "BTCEUR"),
        ("Side", "buy"),
        ("Price", "40000"),
        ("Executed", "0.5BTC"),
        ("Amount", "20000EUR"),
        ("Fee", "0.001BNB"),
    ])
}

#[test]
fn a_trade_row_is_read_with_its_identifiers() {
    let t = read_trade_row(&trade_row()).unwrap();
    assert_eq!(t.time, Timestamp { secs: 1_704_164_645, nanos: 0 });
    assert_eq!(t.kind, TransactionKind::Buy);
    assert_eq!(t.side, "BUY");
    assert_eq!((t.base_amount.as_str(), t.base_symbol.as_str()), ("0.5", "BTC"));
    assert_eq!((t.quote_amount.as_str(), t.quote_symbol.as_str()), ("20000", "EUR"));
    assert_eq!((t.fee_amount.as_str(), t.fee_symbol.as_str()), ("0.001", "BNB"));
    let id = synthetic_id(
        "binance-trade",
        &["2024-01-02 03:04:05", "BTCEUR", "buy", "40000", "0.5BTC", "20000EUR"],
    );
    assert_eq!(t.trade_id, id);
    assert_eq!(t.fee_id, synthetic_id("binance-fee", &[&id, "0.001BNB"]));
    assert!(t.trade_id.starts_with("binance-trade-"));
}

#[test]
fn a_trade_row_fails_on_its_first_bad_column() {
    let mut r = trade_row();
    r.retain(|(k, _)| k != "Price");
    assert!(matches!(read_trade_row(&r), Err(ParseError::MissingColumn(c)) if c == "Price"));

    let mut r = trade_row();
    r[2].1 = "hold".to_string();
    r[4].1 = "x".to_string();
    // Executed is read before Side
    assert!(matches!(read_trade_row(&r), Err(ParseError::NoSuffix(t)) if t == "x"));

    let mut r = trade_row();
    r[2].1 = "hold".to_string();
    assert!(matches!(read_trade_row(&r), Err(ParseError::UnknownSide(s)) if s == "HOLD"));

    let mut r = trade_row();
    r[0].1 = "yesterday".to_string();
    assert!(matches!(read_trade_row(&r), Err(ParseError::BadTime(_))));
}

#[test]
fn a_trade_row_builds_its_trade_and_fee() {
    let t = read_trade_row(&trade_row()).unwrap();
    let trade = trade_transaction(&t, 0.5, 40_000.0, 20_000.0, 20_000.0, "trades.csv");
    assert_eq!(trade.platform, Platform::Binance);
    assert_eq!(trade.account_label, "Spot");
    assert_eq!(trade.kind, TransactionKind::Buy);
    assert_eq!(trade.asset.symbol, "BTC");
    assert_eq!(trade.asset.kind, AssetKind::Crypto);
    assert_eq!(trade.quote_currency.as_deref(), Some("EUR"));
    assert_eq!(trade.amount, Some(20_000.0));
    assert_eq!(trade.external_id.as_deref(), Some(t.trade_id.as_str()));
    assert_eq!(trade.source_file, "trades.csv");

    let fee = fee_transaction(&t, 0.001, 40_000.0, 0.3, "trades.csv");
    assert_eq!(fee.kind, TransactionKind::Fee);
    assert_eq!(fee.asset.symbol, "BNB");
    assert_eq!(fee.price, Some(40_000.0));
    assert_eq!(fee.amount, None);
    assert_eq!(fee.remark.as_deref(), Some("Fee on BUY BTC"));
    assert_eq!(fee.external_id.as_deref(), Some(t.fee_id.as_str()));
}

fn convert_row(status: &str) -> Vec<(String, String)> {
    row(&[
        ("Time", "2024-01-02 03:04:05"),
        ("Wallet", "Spot"),
        ("Pair", "USDC/ETH"),
        ("Sell", "100 USDC"),
        ("Buy", "0.04 ETH"),
        ("Price", "2500"),
        ("Status", status),
    ])
}

#[test]
fn convert_rows_become_a_sell_and_a_buy() {
    assert!(matches!(read_convert_row(&convert_row("Failed")), Ok(None)));
    let c = read_convert_row(&convert_row("Successful")).unwrap().unwrap();
    let id = synthetic_id(
        "binance-convert",
        &["2024-01-02 03:04:05", "Spot", "USDC/ETH", "100 USDC", "0.04 ETH", "2500"],
    );
    assert_eq!(c.sell_id, format!("{id}-sell"));
    assert_eq!(c.buy_id, format!("{id}-buy"));
    assert_eq!((c.sell_amount.as_str(), c.sell_symbol.as_str()), ("100", "USDC"));
    assert_eq!((c.buy_amount.as_str(), c.buy_symbol.as_str()), ("0.04", "ETH"));

    let sell = convert_leg(&c, true, 100.0, 0.92, 92.0, "convert.csv");
    assert_eq!(sell.kind, TransactionKind::Sell);
    assert_eq!(sell.asset.kind, AssetKind::Cash);
    assert_eq!(sell.asset.ref_currency, "USD");
    assert_eq!(sell.amount, Some(92.0));
    assert_eq!(sell.quote_currency.as_deref(), Some("EUR"));
    assert_eq!(sell.remark.as_deref(), Some("Convert"));
    let buy = convert_leg(&c, false, 0.04, 2300.0, 92.0, "convert.csv");
    assert_eq!(buy.kind, TransactionKind::Buy);
    assert_eq!(buy.asset.symbol, "ETH");
    assert_eq!(buy.external_id, Some(c.buy_id.clone()));
    assert_eq!(buy.account_label, "Spot");
}

#[test]
fn convert_rows_report_missing_spaces_and_columns() {
    let mut r = convert_row("Successful");
    r[3].1 = "100USDC".to_string();
    assert!(matches!(read_convert_row(&r), Err(ParseError::NoSymbol(_))));
    let r = row(&[("Time", "x")]);
    assert!(matches!(read_convert_row(&r), Err(ParseError::MissingColumn(c)) if c == "Status"));
}

fn entry() -> ManualEntry<f64> {
    ManualEntry {
        asset: Some("SOL".to_string()),
        id: Some("7".to_string()),
        canonical: "{}".to_string(),
        kind: Some("Deposit".to_string()),
        account_label: None,
        quantity: Some(3.0),
        price: None,
        value_eur: Some(300.0),
        amount: None,
        quote_currency: None,
        time: Some("2024-01-02T03:04:05Z".to_string()),
        remark: Some("gift".to_string()),
    }
}

#[test]
fn manual_entries_become_crypto_transactions() {
    let tx = manual_transaction(&entry(), "manual.json").unwrap();
    assert_eq!(tx.platform, Platform::Manual);
    assert_eq!(tx.account_label, "Manuel");
    assert_eq!(tx.kind, TransactionKind::Deposit);
    assert_eq!(tx.asset.kind, AssetKind::Crypto);
    assert_eq!(tx.asset.ref_currency, "EUR");
    assert_eq!(tx.external_id.as_deref(), Some("manual-7"));
    assert_eq!(tx.time.secs, 1_704_164_645);
    assert_eq!(tx.remark.as_deref(), Some("gift"));

    let mut e = entry();
    e.id = None;
    let tx = manual_transaction(&e, "manual.json").unwrap();
    assert_eq!(tx.external_id, Some(format!("manual-{}", synthetic_id("manual-auto", &["{}"]))));
}

#[test]
fn manual_entries_report_the_first_problem() {
    let mut e = entry();
    e.asset = None;
    e.kind = None;
    assert!(matches!(manual_transaction(&e, "m"), Err(ParseError::MissingColumn(c)) if c == "asset"));
    let mut e = entry();
    e.kind = Some("Gift".to_string());
    e.quantity = None;
    assert!(matches!(manual_transaction(&e, "m"), Err(ParseError::UnknownKind(k)) if k == "Gift"));
    let mut e = entry();
    e.value_eur = None;
    assert!(matches!(manual_transaction(&e, "m"), Err(ParseError::MissingColumn(c)) if c == "value_eur"));
    let mut e = entry();
    e.time = Some("soon".to_string());
    assert!(matches!(manual_transaction(&e, "m"), Err(ParseError::BadTime(t)) if t == "soon"));
}

#[test]
fn xtb_cash_operations_are_eur_movements() {
    let t = Timestamp { secs: 10, nanos: 0 };
    let tx = cash_transaction(TransactionKind::Withdraw, -50.0, 50.0, 1.0, "12", "", t, "x.xlsx");
    assert_eq!(tx.quantity, 50.0);
    assert_eq!(tx.value_eur, 50.0);
    assert_eq!(tx.amount, Some(-50.0));
    assert_eq!(tx.price, Some(1.0));
    assert_eq!(tx.asset.symbol, "EUR");
    assert_eq!(tx.asset.kind, AssetKind::Cash);
    assert_eq!(tx.external_id.as_deref(), Some("xtb-cash-12"));
    assert_eq!(tx.remark, None);
    let tx = cash_transaction(TransactionKind::Deposit, 5.0, 5.0, 1.0, "13", "AIR.FR dividend", t, "x.xlsx");
    assert_eq!(tx.remark.as_deref(), Some("AIR.FR dividend"));
}

#[test]
fn trades_are_grouped_by_period_with_empty_periods_kept() {
    let keys = vec![5, 3, 5, 9];
    let buys = vec![true, false, false, true];
    let groups = group_by_period(&keys, &buys, &[3, 4, 5]);
    let summary: Vec<(i64, Vec<usize>, usize, usize)> =
        groups.iter().map(|g| (g.key, g.members.clone(), g.buys, g.sells)).collect();
    assert_eq!(
        summary,
        vec![
            (3, vec![1], 0, 1),
            (4, vec![], 0, 0),
            (5, vec![0, 2], 1, 1),
            (9, vec![3], 1, 0),
        ]
    );
    assert!(group_by_period(&[], &[], &[]).is_empty());
}

#[test]
fn month_keys_round_trip() {
    assert_eq!(month_key((2024, 1)), 2024 * 12);
    assert_eq!(month_of_key(month_key((2023, 12))), (2023, 12));
    assert_eq!(month_of_key(month_key((2024, 2))), (2024, 2));
    assert_eq!(month_key((2024, 3)) - month_key((2023, 3)), 12);
}
