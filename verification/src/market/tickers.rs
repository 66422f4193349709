//! Resolution of the external ticker of an asset:
//! - a stock is looked up on Yahoo Finance, with the XTB exchange suffix
//!   rewritten to Yahoo's, and a few manual overrides;
//! - a crypto asset is confirmed against the base assets listed by
//!   Binance and returned as is (upper case).
//!
//! The look-ups themselves (network) are done by the caller and handed
//! in; this module decides what is asked and which answer is kept.
use vstd::prelude::*;

use crate::schema::{opt_view, Asset, AssetKind, AssetView};
use crate::text::{
    before_first, concat, contains_text, ends_with, ends_with_spec, split_first, substring,
    text_eq, to_upper, upper_text,
};

verus! {

/// XTB exchange suffix -> Yahoo Finance suffix, in the order they are
/// tried.
pub open spec fn xtb_suffixes() -> Seq<(Seq<char>, Seq<char>)> {
    seq![
        (".FR"@, ".PA"@),
        (".NL"@, ".AS"@),
        (".UK"@, ".L"@),
        (".DE"@, ".DE"@),
        (".US"@, ""@),
        (".PL"@, ".WA"@),
    ]
}

/// Symbols whose Yahoo ticker is fixed by hand (the search gets them
/// wrong).
pub open spec fn ticker_overrides() -> Seq<(Seq<char>, Seq<char>)> {
    seq![(
        "MSTR.US"@,
        "MSTR"@,
    ), ("XFVT.DE"@, "XFVT.DE"@)]
}

pub open spec fn pairs_view(v: Seq<(&'static str, &'static str)>) -> Seq<(Seq<char>, Seq<char>)> {
    v.map_values(|p: (&'static str, &'static str)| (p.0@, p.1@))
}

/// The XTB -> Yahoo suffix table.
pub fn xtb_to_yahoo_suffix() -> (r: Vec<(&'static str, &'static str)>)
    ensures
        pairs_view(r@) == xtb_suffixes(),
{
    let r = vec![
        (".FR", ".PA"),
        (".NL", ".AS"),
        (".UK", ".L"),
        (".DE", ".DE"),
        (".US", ""),
        (".PL", ".WA"),
    ];
    assert(pairs_view(r@) =~= xtb_suffixes());
    r
}

/// The table of manual ticker overrides.
pub fn manual_ticker_overrides() -> (r: Vec<(&'static str, &'static str)>)
    ensures
        pairs_view(r@) == ticker_overrides(),
{
    let r = vec![("MSTR.US", "MSTR"), ("XFVT.DE", "XFVT.DE")];
    assert(pairs_view(r@) =~= ticker_overrides());
    r
}

/// Ticker of a crypto asset: its symbol in upper case, when Binance lists
/// it among `known_base_assets`.
pub open spec fn crypto_ticker_spec(known: Seq<Seq<char>>, symbol: Seq<char>) -> Option<Seq<char>> {
    if known.contains(upper_text(symbol)) {
        Some(upper_text(symbol))
    } else {
        None
    }
}

pub open spec fn strings_view(v: Seq<String>) -> Seq<Seq<char>> {
    v.map_values(|s: String| s@)
}

/// The ticker of a crypto whose symbol is `symbol_upper` (upper case):
/// the symbol itself when Binance lists it among `known_base_assets`.
pub fn listed_crypto_ticker(known_base_assets: &[String], symbol_upper: &str) -> (r: Option<String>)
    ensures
        opt_view(r) == (if strings_view(known_base_assets@).contains(symbol_upper@) {
            Some(symbol_upper@)
        } else {
            None
        }),
{
    let found = contains_text(known_base_assets, symbol_upper);
    proof {
        let kv = strings_view(known_base_assets@);
        if found {
            let i = choose|i: int| 0 <= i < known_base_assets@.len() && #[trigger] known_base_assets@[i]@ == symbol_upper@;
            assert(kv[i] == symbol_upper@);
        } else {
            assert forall|i: int| 0 <= i < kv.len() implies kv[i] != symbol_upper@ by {
                assert(known_base_assets@[i]@ != symbol_upper@);
            }
        }
    }
    if found {
        Some(String::from_str(symbol_upper))
    } else {
        None
    }
}

/// See [`crypto_ticker_spec`].
pub fn ticker_for_crypto(known_base_assets: &[String], symbol: &str) -> (r: Option<String>)
    ensures
        opt_view(r) == crypto_ticker_spec(strings_view(known_base_assets@), symbol@),
{
    let up = to_upper(symbol);
    listed_crypto_ticker(known_base_assets, up.as_str())
}

/// A search result of Yahoo Finance: its symbol and its quote type, as
/// far as they are present.
#[derive(Debug)]
pub struct YahooQuote {
    pub symbol: Option<String>,
    pub quote_type: Option<String>,
}

pub struct YahooQuoteView {
    pub symbol: Option<Seq<char>>,
    pub quote_type: Option<Seq<char>>,
}

impl View for YahooQuote {
    type V = YahooQuoteView;

    open spec fn view(&self) -> YahooQuoteView {
        YahooQuoteView { symbol: opt_view(self.symbol), quote_type: opt_view(self.quote_type) }
    }
}

pub open spec fn quotes_view(v: Seq<YahooQuote>) -> Seq<YahooQuoteView> {
    v.map_values(|q: YahooQuote| q@)
}

/// Only equities and ETFs are candidates.
pub open spec fn is_candidate(q: YahooQuoteView) -> bool {
    q.quote_type matches Some(t) && (t == "EQUITY"@ || t == "ETF"@)
}

/// A candidate whose full symbol is the expected one, in any case.
pub open spec fn is_exact(q: YahooQuoteView, expected: Seq<char>) -> bool {
    &&& is_candidate(q)
    &&& q.symbol matches Some(s)
    &&& upper_text(s) == upper_text(expected)
}

/// A candidate whose symbol has the expected root (the part before the
/// first '.'), in any case.
pub open spec fn is_same_root(q: YahooQuoteView, expected: Seq<char>) -> bool {
    &&& is_candidate(q)
    &&& q.symbol matches Some(s)
    &&& upper_text(before_first(s, '.')) == before_first(upper_text(expected), '.')
}

/// The best Yahoo candidate for `expected`:
/// 1. the first candidate whose whole symbol matches (one fund is listed
///    on several exchanges, e.g. XFVT.DE / XFVT.MI / XFVT.L);
/// 2. otherwise the only candidate with the same root, which keeps away
///    derivatives with close names (MSTU, MSTX for MSTR);
/// 3. otherwise none: several listings are ambiguous.
pub open spec fn best_quote_spec(quotes: Seq<YahooQuoteView>, expected: Seq<char>) -> Option<
    Seq<char>,
> {
    if exists|i: int| 0 <= i < quotes.len() && is_exact(quotes[i], expected) {
        let i = choose|i: int|
            0 <= i < quotes.len() && is_exact(quotes[i], expected) && forall|j: int|
                0 <= j < i ==> !is_exact(quotes[j], expected);
        quotes[i].symbol
    } else if exists|i: int|
        0 <= i < quotes.len() && is_same_root(quotes[i], expected) && forall|j: int|
            0 <= j < quotes.len() && is_same_root(quotes[j], expected) ==> j == i {
        let i = choose|i: int|
            0 <= i < quotes.len() && is_same_root(quotes[i], expected) && forall|j: int|
                0 <= j < quotes.len() && is_same_root(quotes[j], expected) ==> j == i;
        quotes[i].symbol
    } else {
        None
    }
}

fn quote_is_candidate(q: &YahooQuote) -> (r: bool)
    ensures
        r == is_candidate(q@),
{
    match &q.quote_type {
        Some(t) => text_eq(t.as_str(), "EQUITY") || text_eq(t.as_str(), "ETF"),
        None => false,
    }
}

/// See [`best_quote_spec`].
pub fn best_quote(quotes: &[YahooQuote], expected_symbol: &str) -> (r: Option<String>)
    ensures
        opt_view(r) == best_quote_spec(quotes_view(quotes@), expected_symbol@),
{
    let ghost qv = quotes_view(quotes@);
    let expected_upper = to_upper(expected_symbol);
    let mut i: usize = 0;
    while i < quotes.len()
        invariant
            i <= quotes@.len(),
            qv == quotes_view(quotes@),
            expected_upper@ == upper_text(expected_symbol@),
            forall|j: int| 0 <= j < i ==> !is_exact(#[trigger] qv[j], expected_symbol@),
        decreases quotes@.len() - i,
    {
        let q = &quotes[i];
        if quote_is_candidate(q) {
            match &q.symbol {
                Some(s) => {
                    let su = to_upper(s.as_str());
                    if su == expected_upper {
                        proof {
                            assert(is_exact(qv[i as int], expected_symbol@));
                            let c = choose|c: int|
                                0 <= c < qv.len() && is_exact(qv[c], expected_symbol@) && forall|j: int|
                                    0 <= j < c ==> !is_exact(qv[j], expected_symbol@);
                            assert(c == i) by {
                                if c < i {
                                } else if c > i {
                                }
                            }
                        }
                        return Some(s.clone());
                    }
                },
                None => {},
            }
        }
        i = i + 1;
    }
    let expected_root = split_first(expected_upper.as_str(), '.');
    let mut found: Option<usize> = None;
    let mut count: usize = 0;
    let mut k: usize = 0;
    while k < quotes.len()
        invariant
            k <= quotes@.len(),
            qv == quotes_view(quotes@),
            expected_root@ == before_first(upper_text(expected_symbol@), '.'),
            count <= k,
            count == 0 <==> found is None,
            found matches Some(f) ==> f < k && is_same_root(qv[f as int], expected_symbol@),
            count == 1 ==> (found matches Some(f) && forall|j: int|
                0 <= j < k && is_same_root(#[trigger] qv[j], expected_symbol@) ==> j == f),
            count == 0 ==> forall|j: int| 0 <= j < k ==> !is_same_root(#[trigger] qv[j], expected_symbol@),
            count >= 2 ==> (found matches Some(f) && exists|j: int|
                0 <= j < k && j != f && is_same_root(#[trigger] qv[j], expected_symbol@)),
        decreases quotes@.len() - k,
    {
        let q = &quotes[k];
        if quote_is_candidate(q) {
            match &q.symbol {
                Some(s) => {
                    let root = split_first(s.as_str(), '.');
                    let root_up = to_upper(root.as_str());
                    if root_up == expected_root {
                        proof {
                            assert(is_same_root(qv[k as int], expected_symbol@));
                        }
                        if count == 0 {
                            found = Some(k);
                        }
                        if count < 2 {
                            count = count + 1;
                        }
                    }
                },
                None => {},
            }
        }
        k = k + 1;
    }
    proof {
        assert(!exists|j: int| 0 <= j < qv.len() && is_exact(qv[j], expected_symbol@));
    }
    if count == 1 {
        match found {
            Some(f) => {
                proof {
                    let c = choose|c: int|
                        0 <= c < qv.len() && is_same_root(qv[c], expected_symbol@) && forall|j: int|
                            0 <= j < qv.len() && is_same_root(qv[j], expected_symbol@) ==> j == c;
                    assert(c == f);
                }
                match &quotes[f].symbol {
                    Some(s) => Some(s.clone()),
                    None => None,
                }
            },
            None => None,
        }
    } else {
        proof {
            if count >= 2 {
                let f = found->Some_0;
                let j2 = choose|j: int| 0 <= j < qv.len() && j != f && is_same_root(qv[j], expected_symbol@);
                assert forall|c: int|
                    !(0 <= c < qv.len() && is_same_root(qv[c], expected_symbol@) && forall|j: int|
                        0 <= j < qv.len() && is_same_root(qv[j], expected_symbol@) ==> j == c) by {
                    if 0 <= c < qv.len() && is_same_root(qv[c], expected_symbol@) && forall|j: int|
                        0 <= j < qv.len() && is_same_root(qv[j], expected_symbol@) ==> j == c {
                        assert(j2 == c);
                        assert(f as int == c);
                    }
                }
            }
        }
        None
    }
}

/// `r` is what the searches of a stock gave, for some answers of
/// `search`: the best quote of the search for the guessed Yahoo symbol;
/// failing that, when the guess differs from the symbol, the best quote
/// of the search for the symbol itself.
pub open spec fn searched_ticker<F: Fn(&str) -> Option<Vec<YahooQuote>>>(
    search: F,
    symbol_upper: Seq<char>,
    r: Option<Seq<char>>,
) -> bool {
    let guess = yahoo_guess(symbol_upper);
    exists|q1: &str, resp1: Option<Vec<YahooQuote>>|
        q1@ == guess && #[trigger] search.ensures((q1,), resp1) && match search_answer(resp1, guess) {
            Some(t) => r == Some(t),
            None => if guess != symbol_upper {
                exists|q2: &str, resp2: Option<Vec<YahooQuote>>|
                    q2@ == symbol_upper && #[trigger] search.ensures((q2,), resp2) && r == search_answer(
                        resp2,
                        guess,
                    )
            } else {
                r is None
            },
        }
}

/// The override for `symbol_upper`, if it has one.
pub open spec fn override_for(symbol_upper: Seq<char>) -> Option<Seq<char>> {
    if exists|i: int| 0 <= i < ticker_overrides().len() && ticker_overrides()[i].0 == symbol_upper {
        let i = choose|i: int|
            0 <= i < ticker_overrides().len() && ticker_overrides()[i].0 == symbol_upper;
        Some(ticker_overrides()[i].1)
    } else {
        None
    }
}

/// The Yahoo symbol guessed from an (upper-case) XTB symbol: the first
/// XTB suffix it ends with, in table order, is replaced by Yahoo's.
pub open spec fn yahoo_guess(symbol_upper: Seq<char>) -> Seq<char> {
    if exists|i: int|
        0 <= i < xtb_suffixes().len() && ends_with_spec(symbol_upper, xtb_suffixes()[i].0) {
        let i = choose|i: int|
            0 <= i < xtb_suffixes().len() && ends_with_spec(symbol_upper, xtb_suffixes()[i].0)
                && forall|j: int| 0 <= j < i ==> !ends_with_spec(symbol_upper, xtb_suffixes()[j].0);
        symbol_upper.take(symbol_upper.len() - xtb_suffixes()[i].0.len()) + xtb_suffixes()[i].1
    } else {
        symbol_upper
    }
}

/// The answer kept from one search: the best quote for the guessed
/// symbol, when the search gave quotes.
pub open spec fn search_answer(response: Option<Vec<YahooQuote>>, guess: Seq<char>) -> Option<
    Seq<char>,
> {
    match response {
        Some(quotes) => best_quote_spec(quotes_view(quotes@), guess),
        None => None,
    }
}

/// The override for an upper-case symbol, if any.
pub fn find_override(symbol_upper: &str) -> (r: Option<String>)
    ensures
        opt_view(r) == override_for(symbol_upper@),
{
    let table = manual_ticker_overrides();
    let mut i: usize = 0;
    while i < table.len()
        invariant
            pairs_view(table@) == ticker_overrides(),
            i <= table@.len(),
            forall|j: int| 0 <= j < i ==> ticker_overrides()[j].0 != symbol_upper@,
        decreases table@.len() - i,
    {
        let (k, v) = table[i];
        proof {
            assert(pairs_view(table@)[i as int] == (k@, v@));
        }
        if text_eq(k, symbol_upper) {
            proof {
                let c = choose|c: int|
                    0 <= c < ticker_overrides().len() && ticker_overrides()[c].0 == symbol_upper@;
                assert(ticker_overrides()[0].0 != ticker_overrides()[1].0) by {
                    reveal_strlit("MSTR.US");
                    reveal_strlit("XFVT.DE");
                    assert("MSTR.US"@[0] != "XFVT.DE"@[0]);
                }
                assert(c == i);
            }
            return Some(String::from_str(v));
        }
        i = i + 1;
    }
    None
}

/// See [`yahoo_guess`].
pub fn guess_yahoo_symbol(symbol_upper: &str) -> (r: String)
    ensures
        r@ == yahoo_guess(symbol_upper@),
{
    let table = xtb_to_yahoo_suffix();
    let mut i: usize = 0;
    while i < table.len()
        invariant
            pairs_view(table@) == xtb_suffixes(),
            i <= table@.len(),
            forall|j: int| 0 <= j < i ==> !ends_with_spec(symbol_upper@, xtb_suffixes()[j].0),
        decreases table@.len() - i,
    {
        let (xs, ys) = table[i];
        proof {
            assert(pairs_view(table@)[i as int] == (xs@, ys@));
        }
        if ends_with(symbol_upper, xs) {
            let n = symbol_upper.unicode_len();
            let m = xs.unicode_len();
            let stem = substring(symbol_upper, 0, n - m);
            proof {
                let c = choose|c: int|
                    0 <= c < xtb_suffixes().len() && ends_with_spec(symbol_upper@, xtb_suffixes()[c].0)
                        && forall|j: int| 0 <= j < c ==> !ends_with_spec(symbol_upper@, xtb_suffixes()[j].0);
                assert(c == i) by {
                    if c < i {
                    } else if c > i {
                    }
                }
            }
            return concat(stem.as_str(), ys);
        }
        i = i + 1;
    }
    String::from_str(symbol_upper)
}

/// Yahoo ticker of a stock. `search` runs one Yahoo Finance search and
/// gives its quotes (`None` when the search fails). The override table is
/// consulted first; otherwise the guessed Yahoo symbol is searched, then
/// the symbol itself when it differs, and the first [`search_answer`]
/// found is kept (see [`searched_ticker`]).
pub fn ticker_for_stock<F: Fn(&str) -> Option<Vec<YahooQuote>>>(symbol: &str, search: F) -> (r:
    Option<String>)
    requires
        override_for(upper_text(symbol@)) is None ==> forall|q: &str| search.requires((q,)),
    ensures
        override_for(upper_text(symbol@)) matches Some(o) ==> opt_view(r) == Some(o),
        override_for(upper_text(symbol@)) is None ==> searched_ticker(search, upper_text(symbol@), opt_view(r)),
{
    let up = to_upper(symbol);
    match find_override(up.as_str()) {
        Some(o) => {
            return Some(o);
        },
        None => {},
    }
    let guess = guess_yahoo_symbol(up.as_str());
    let first = search(guess.as_str());
    let attempt = match &first {
        Some(quotes) => best_quote(quotes.as_slice(), guess.as_str()),
        None => None,
    };
    proof {
        assert(search_answer(first, guess@) == opt_view(attempt));
    }
    match attempt {
        Some(t) => {
            proof {
                assert(searched_ticker(search, up@, Some(t@)));
            }
            return Some(t);
        },
        None => {},
    }
    if guess != up {
        let second = search(up.as_str());
        let attempt2 = match &second {
            Some(quotes) => best_quote(quotes.as_slice(), guess.as_str()),
            None => None,
        };
        proof {
            assert(search_answer(second, guess@) == opt_view(attempt2));
            assert(searched_ticker(search, up@, opt_view(attempt2)));
        }
        attempt2
    } else {
        proof {
            assert(searched_ticker(search, up@, None));
        }
        None
    }
}

/// Ticker of an asset: crypto assets are checked against the base assets
/// that Binance lists, stocks go through [`ticker_for_stock`] with the
/// Yahoo search `search`, cash has none.
pub fn resolve_ticker<F: Fn(&str) -> Option<Vec<YahooQuote>>>(
    symbol: &str,
    kind: AssetKind,
    known_crypto_assets: &[String],
    search: F,
) -> (r: Option<String>)
    requires
        kind == AssetKind::Stock && override_for(upper_text(symbol@)) is None ==> forall|q: &str|
            search.requires((q,)),
    ensures
        kind == AssetKind::Crypto ==> opt_view(r) == crypto_ticker_spec(
            strings_view(known_crypto_assets@),
            symbol@,
        ),
        kind == AssetKind::Stock ==> (override_for(upper_text(symbol@)) matches Some(o) ==> opt_view(r)
            == Some(o)),
        kind == AssetKind::Stock ==> (override_for(upper_text(symbol@)) is None ==> searched_ticker(
            search,
            upper_text(symbol@),
            opt_view(r),
        )),
        kind == AssetKind::Cash ==> r is None,
{
    match kind {
        AssetKind::Crypto => ticker_for_crypto(known_crypto_assets, symbol),
        AssetKind::Stock => ticker_for_stock(symbol, search),
        AssetKind::Cash => None,
    }
}

/// An asset whose ticker is to be looked up: not cash, and without a
/// ticker yet.
pub open spec fn needs_ticker_spec(a: AssetView) -> bool {
    a.kind != AssetKind::Cash && a.identifiers.ticker is None
}

/// See [`needs_ticker_spec`].
pub fn needs_ticker(asset: &Asset) -> (r: bool)
    ensures
        r == needs_ticker_spec(asset@),
{
    asset.kind != AssetKind::Cash && asset.identifiers.ticker.is_none()
}

} // verus!
