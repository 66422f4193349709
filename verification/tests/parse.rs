use portfolio_rs::parse::binance::{
    asset_kind_for, binance_asset, field, normalize_currency, parse_time as binance_time,
    quote_currency, split_amount, split_space_amount, synthetic_id, trade_kind,
};
use portfolio_rs::parse::manual::{kind_from_str, manual_external_id, parse_time as manual_time};
use portfolio_rs::parse::xtb::{
    cash_external_id, cash_kind_for, cash_operation_kind, col, column_map, find_header_row,
    find_sheet_by_prefix, has_col, infer_currency, parse_time_text, real_trading_currency,
    XtbClosedPosition, XtbError, XtbOpenPosition,
};
use portfolio_rs::parse::ParseError;
use portfolio_rs::schema::{AssetKind, Platform, TransactionKind};
use portfolio_rs::time::Timestamp;
use portfolio_rs::parse::binance::side_kind;
use portfolio_rs::parse::xtb::column_index;

fn s(x: &str) -> String {
    x.to_string()
}

// --- Binance ---

#[test]
fn synthetic_id_hashes_the_joined_parts() {
    // SHA-256 of "abc" starts with ba7816bf8f01cfea.
    assert_eq!(synthetic_id("p", &["abc"]), "p-ba7816bf8f01cfea");
    // parts are joined with '|': "a|bc" differs from "ab|c".
    assert_ne!(synthetic_id("p", &["a", "bc"]), synthetic_id("p", &["ab", "c"]));
    assert_eq!(synthetic_id("x", &["a", "b"]).len(), 2 + 16);
}

#[test]
fn split_amount_separates_number_and_coin() {
    let (a, u) = split_amount(" 0.5BTC ").unwrap();
    assert_eq!((a.as_str(), u.as_str()), ("0.5", "BTC"));
    let (a, u) = split_amount("12EUR").unwrap();
    assert_eq!((a.as_str(), u.as_str()), ("12", "EUR"));
}

#[test]
fn split_amount_rejects_malformed_amounts() {
    assert!(matches!(split_amount("BTC"), Err(ParseError::NoSuffix(_))));
    assert!(matches!(split_amount("0.5"), Err(ParseError::NoSuffix(_))));
    assert!(matches!(split_amount("0.5 BTC"), Err(ParseError::NoSuffix(_))));
    assert!(matches!(split_amount("-1BTC"), Err(ParseError::NoSuffix(_))));
    assert!(matches!(split_amount("1BTC2"), Err(ParseError::NoSuffix(_))));
}

#[test]
fn split_space_amount_cuts_at_the_first_space() {
    let (a, u) = split_space_amount(" 12.5 USDT ").unwrap();
    assert_eq!((a.as_str(), u.as_str()), ("12.5", "USDT"));
    assert!(matches!(split_space_amount("12.5USDT"), Err(ParseError::NoSymbol(_))));
}

#[test]
fn binance_coins_map_to_cash_or_crypto() {
    assert_eq!(normalize_currency("EURI"), Some("EUR"));
    assert_eq!(normalize_currency("USDT"), Some("USD"));
    assert_eq!(normalize_currency("BTC"), None);
    assert_eq!(asset_kind_for("USDC"), AssetKind::Cash);
    assert_eq!(asset_kind_for("ETH"), AssetKind::Crypto);
    let a = binance_asset("ETH");
    assert_eq!(a.symbol, "ETH");
    assert_eq!(a.ref_currency, "USD");
    assert_eq!(binance_asset("EUR").ref_currency, "EUR");
    assert_eq!(quote_currency("USDC"), "USD");
    assert_eq!(quote_currency("BTC"), "BTC");
}

#[test]
fn trade_kind_reads_the_side_in_any_case() {
    assert_eq!(trade_kind("buy").unwrap(), TransactionKind::Buy);
    assert_eq!(trade_kind("SELL").unwrap(), TransactionKind::Sell);
    match trade_kind("hold") {
        Err(ParseError::UnknownSide(side)) => assert_eq!(side, "HOLD"),
        other => panic!("unexpected {:?}", other),
    }
}

#[test]
fn binance_times_are_utc() {
    assert_eq!(binance_time("2024-01-02 03:04:05").unwrap(), Timestamp { secs: 1_704_164_645, nanos: 0 });
    assert!(matches!(binance_time("02/01/2024 03:04:05"), Err(ParseError::BadTime(_))));
}

#[test]
fn field_takes_the_last_column_of_that_name() {
    let row = vec![(s("Coin"), s("BTC")), (s("Amount"), s("1")), (s("Coin"), s("ETH"))];
    assert_eq!(field(&row, "Coin").unwrap(), "ETH");
    assert_eq!(field(&row, "Amount").unwrap(), "1");
    assert!(matches!(field(&row, "Fee"), Err(ParseError::MissingColumn(c)) if c == "Fee"));
}

// --- manual entries ---

#[test]
fn manual_kinds_use_their_exact_names() {
    assert_eq!(kind_from_str("Buy").unwrap(), TransactionKind::Buy);
    assert_eq!(kind_from_str("Withdraw").unwrap(), TransactionKind::Withdraw);
    assert!(matches!(kind_from_str("buy"), Err(ParseError::UnknownKind(_))));
}

#[test]
fn manual_times_accept_z_for_utc() {
    let t = manual_time("2024-01-02T03:04:05Z").unwrap();
    assert_eq!(t, Timestamp { secs: 1_704_164_645, nanos: 0 });
    let t = manual_time("2024-01-02T04:04:05+01:00").unwrap();
    assert_eq!(t.secs, 1_704_164_645);
    assert!(matches!(manual_time("yesterday"), Err(ParseError::BadTime(_))));
    assert_eq!(manual_external_id("42"), "manual-42");
}

// --- XTB ---

#[test]
fn xtb_currency_comes_from_the_suffix_unless_quoted() {
    assert_eq!(infer_currency("AIR.FR"), "EUR");
    assert_eq!(infer_currency("VOD.UK"), "GBP");
    assert_eq!(infer_currency("MSTR.US"), "USD");
    assert_eq!(infer_currency("WEIRD"), "EUR");
    assert_eq!(real_trading_currency("VUSA.UK", Some(s("EUR"))), "EUR");
    assert_eq!(real_trading_currency("VUSA.UK", None), "GBP");
}

#[test]
fn xtb_sheets_and_headers_are_found() {
    let names = vec![s("CLOSED POSITION HISTORY"), s("OPEN POSITION 12022024"), s("CASH OPERATION HISTORY")];
    assert_eq!(find_sheet_by_prefix(&names, "OPEN POSITION").unwrap(), "OPEN POSITION 12022024");
    assert!(matches!(find_sheet_by_prefix(&names, "NOPE"), Err(XtbError::MissingSheet(_))));

    let rows = vec![
        vec![s("Report"), s("")],
        vec![s("Position"), s("Symbol")],
        vec![s("1"), s("AIR.FR")],
    ];
    assert_eq!(find_header_row(&rows, " symbol").unwrap(), 1);
    assert!(matches!(find_header_row(&rows, "volume"), Err(XtbError::MissingHeader(_))));
}

#[test]
fn xtb_columns_are_looked_up_in_any_case() {
    let header = vec![s("Position"), s(""), s("SYMBOL"), s("Volume")];
    let map = column_map(&header);
    assert!(has_col(&map, "position"));
    assert!(has_col(&map, "VOLUME"));
    assert!(has_col(&map, " Symbol "));
    assert!(!has_col(&map, "price"));
    let row = vec![s("7"), s(""), s("AIR.FR"), s("2")];
    assert_eq!(col(&row, &map, "symbol").unwrap(), "AIR.FR");
    assert!(matches!(col(&row, &map, "price"), Err(XtbError::MissingColumn(_))));
    let short = vec![s("7")];
    assert!(matches!(col(&short, &map, "volume"), Err(XtbError::MissingCell(_))));
}

#[test]
fn xtb_cash_operations_are_classified() {
    assert_eq!(cash_kind_for("Deposit"), Some(TransactionKind::Deposit));
    assert_eq!(cash_kind_for("Stock purchase"), Some(TransactionKind::Withdraw));
    assert_eq!(cash_kind_for("Tax IFTT"), Some(TransactionKind::Fee));
    assert!(matches!(cash_operation_kind(""), Ok(None)));
    assert!(matches!(cash_operation_kind("PEA deposit"), Ok(None)));
    assert!(matches!(cash_operation_kind("Dividend"), Ok(Some(TransactionKind::Deposit))));
    assert!(matches!(cash_operation_kind("Lottery"), Err(XtbError::UnhandledCashType(t)) if t == "Lottery"));
    assert_eq!(cash_external_id("99"), "xtb-cash-99");
}

#[test]
fn xtb_text_times_are_day_first() {
    assert_eq!(parse_time_text(" 02/01/2024 03:04:05 ").unwrap().secs, 1_704_164_645);
    assert!(matches!(parse_time_text("2024-01-02 03:04:05"), Err(XtbError::BadTime(_))));
}

#[test]
fn xtb_positions_become_transactions() {
    let t0 = Timestamp { secs: 1_000, nanos: 0 };
    let t1 = Timestamp { secs: 2_000, nanos: 0 };
    let closed = XtbClosedPosition {
        position_id: s("77"),
        symbol: s("AIR.FR"),
        volume: 3.0,
        open_time: t0,
        open_price: 10.0,
        close_time: t1,
        close_price: 12.0,
        purchase_value: 30.0,
        sale_value: 36.0,
        source_file: s("f.xlsx"),
    };
    let txs = closed.to_transactions();
    assert_eq!(txs.len(), 2);
    assert_eq!(txs[0].kind, TransactionKind::Buy);
    assert_eq!(txs[0].external_id.as_deref(), Some("77-buy"));
    assert_eq!(txs[0].value_eur, 30.0);
    assert_eq!(txs[0].time, t0);
    assert_eq!(txs[1].kind, TransactionKind::Sell);
    assert_eq!(txs[1].external_id.as_deref(), Some("77-sell"));
    assert_eq!(txs[1].value_eur, 36.0);
    assert_eq!(txs[1].platform, Platform::Xtb);
    assert_eq!(txs[1].asset.ref_currency, "EUR");

    let open = XtbOpenPosition {
        position_id: s("78"),
        symbol: s("VOD.UK"),
        volume: 1.0,
        open_time: t0,
        open_price: 1.0,
        purchase_value: 1.2,
        comment: None,
        source_file: s("f.xlsx"),
    };
    let tx = open.to_transaction();
    assert_eq!(tx.kind, TransactionKind::Buy);
    assert_eq!(tx.external_id.as_deref(), Some("78"));
    assert_eq!(tx.asset.ref_currency, "GBP");
}

#[test]
fn ids_are_cut_from_the_hexadecimal_digest() {
    let digest: Vec<u8> = (0u8..32).collect();
    assert_eq!(portfolio_rs::parse::binance::id_from_digest("x", &digest), "x-0001020304050607");
}

#[test]
fn sides_in_upper_case_are_read_exactly() {
    assert_eq!(side_kind("BUY").unwrap(), TransactionKind::Buy);
    assert_eq!(side_kind("SELL").unwrap(), TransactionKind::Sell);
    assert!(matches!(side_kind("buy"), Err(ParseError::UnknownSide(s)) if s == "buy"));
}

#[test]
fn column_index_takes_the_last_column_of_a_name() {
    let header = vec![s("Type"), s("x"), s("TYPE")];
    let map = column_map(&header);
    assert_eq!(column_index(&map, "type"), Some(2));
    assert_eq!(column_index(&map, "x"), Some(1));
    assert_eq!(column_index(&map, "Type"), None);
}
