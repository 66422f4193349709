use portfolio_rs::market::tickers::{
    best_quote, find_override, guess_yahoo_symbol, manual_ticker_overrides, resolve_ticker,
    ticker_for_crypto, ticker_for_stock, xtb_to_yahoo_suffix, YahooQuote,
};
use portfolio_rs::schema::AssetKind;
use std::cell::RefCell;
use portfolio_rs::market::tickers::listed_crypto_ticker;

fn q(symbol: &str, quote_type: &str) -> YahooQuote {
    YahooQuote { symbol: Some(symbol.to_string()), quote_type: Some(quote_type.to_string()) }
}

#[test]
fn suffix_and_override_tables() {
    assert_eq!(xtb_to_yahoo_suffix().len(), 6);
    assert_eq!(xtb_to_yahoo_suffix()[4], (".US", ""));
    assert_eq!(manual_ticker_overrides(), vec![("MSTR.US", "MSTR"), ("XFVT.DE", "XFVT.DE")]);
}

#[test]
fn guess_replaces_the_xtb_suffix() {
    assert_eq!(guess_yahoo_symbol("AIR.FR"), "AIR.PA");
    assert_eq!(guess_yahoo_symbol("VOD.UK"), "VOD.L");
    assert_eq!(guess_yahoo_symbol("AAPL.US"), "AAPL");
    assert_eq!(guess_yahoo_symbol("SAP.DE"), "SAP.DE");
    assert_eq!(guess_yahoo_symbol("ODD"), "ODD");
}

#[test]
fn overrides_are_exact_upper_case_matches() {
    assert_eq!(find_override("MSTR.US"), Some("MSTR".to_string()));
    assert_eq!(find_override("mstr.us"), None);
    assert_eq!(find_override("AIR.FR"), None);
}

#[test]
fn best_quote_prefers_an_exact_match() {
    let quotes = vec![q("XFVT.MI", "ETF"), q("xfvt.de", "ETF"), q("XFVT.DE", "ETF")];
    assert_eq!(best_quote(&quotes, "XFVT.DE"), Some("xfvt.de".to_string()));
}

#[test]
fn best_quote_falls_back_to_a_unique_same_root_candidate() {
    let quotes = vec![q("MSTU", "EQUITY"), q("MSTR.MX", "EQUITY"), q("MSTR.X", "FUTURE")];
    assert_eq!(best_quote(&quotes, "MSTR"), Some("MSTR.MX".to_string()));
}

#[test]
fn best_quote_refuses_ambiguous_or_foreign_candidates() {
    let quotes = vec![q("AIR.PA", "EQUITY"), q("AIR.DE", "EQUITY")];
    assert_eq!(best_quote(&quotes, "AIR.L"), None);
    let quotes = vec![q("AIR.PA", "OPTION")];
    assert_eq!(best_quote(&quotes, "AIR.PA"), None);
    assert_eq!(best_quote(&[], "AIR.PA"), None);
    let no_symbol = vec![YahooQuote { symbol: None, quote_type: Some("ETF".to_string()) }];
    assert_eq!(best_quote(&no_symbol, "AIR.PA"), None);
}

#[test]
fn crypto_tickers_must_be_listed() {
    let known = vec!["BTC".to_string(), "ETH".to_string()];
    assert_eq!(ticker_for_crypto(&known, "btc"), Some("BTC".to_string()));
    assert_eq!(ticker_for_crypto(&known, "DOGE"), None);
}

#[test]
fn stock_ticker_searches_the_guess_then_the_symbol() {
    let asked = RefCell::new(Vec::new());
    let r = ticker_for_stock("air.fr", |query: &str| {
        asked.borrow_mut().push(query.to_string());
        if query == "AIR.FR" {
            Some(vec![q("AIR.PA", "EQUITY")])
        } else {
            None
        }
    });
    assert_eq!(r, Some("AIR.PA".to_string()));
    assert_eq!(*asked.borrow(), vec!["AIR.PA".to_string(), "AIR.FR".to_string()]);
}

#[test]
fn stock_ticker_stops_at_the_first_answer() {
    let asked = RefCell::new(Vec::new());
    let r = ticker_for_stock("AIR.FR", |query: &str| {
        asked.borrow_mut().push(query.to_string());
        Some(vec![q("AIR.PA", "EQUITY")])
    });
    assert_eq!(r, Some("AIR.PA".to_string()));
    assert_eq!(asked.borrow().len(), 1);
}

#[test]
fn stock_ticker_uses_overrides_without_searching() {
    let asked = RefCell::new(0);
    let r = ticker_for_stock("mstr.us", |_query: &str| {
        *asked.borrow_mut() += 1;
        None
    });
    assert_eq!(r, Some("MSTR".to_string()));
    assert_eq!(*asked.borrow(), 0);
}

#[test]
fn stock_ticker_without_suffix_searches_once() {
    let asked = RefCell::new(0);
    let r = ticker_for_stock("ODD", |_query: &str| {
        *asked.borrow_mut() += 1;
        None
    });
    assert_eq!(r, None);
    assert_eq!(*asked.borrow(), 1);
}

#[test]
fn resolve_ticker_dispatches_on_the_kind() {
    let known = vec!["BTC".to_string()];
    let asked = RefCell::new(0);
    let search = |_query: &str| {
        *asked.borrow_mut() += 1;
        Some(vec![q("AIR.PA", "EQUITY")])
    };
    assert_eq!(resolve_ticker("btc", AssetKind::Crypto, &known, &search), Some("BTC".to_string()));
    assert_eq!(resolve_ticker("EUR", AssetKind::Cash, &known, &search), None);
    assert_eq!(resolve_ticker("MSTR.US", AssetKind::Stock, &known, &search), Some("MSTR".to_string()));
    assert_eq!(*asked.borrow(), 0);
    assert_eq!(resolve_ticker("AIR.FR", AssetKind::Stock, &known, &search), Some("AIR.PA".to_string()));
    assert_eq!(*asked.borrow(), 1);
}

#[test]
fn listed_crypto_tickers_need_the_exact_symbol() {
    let known = vec!["BTC".to_string()];
    assert_eq!(listed_crypto_ticker(&known, "BTC"), Some("BTC".to_string()));
    assert_eq!(listed_crypto_ticker(&known, "btc"), None);
}
