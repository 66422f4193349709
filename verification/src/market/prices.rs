//! Price selection rules: which cached point answers a request, how a
//! quote currency maps to a foreign-exchange pair, how cash is priced, and
//! how the points of a price feed are assembled.
use vstd::prelude::*;

use crate::market::cache::{
    is_live_bucket_at, series_of, spec_is_live_bucket, value_at_or_before_spec, Resolution,
    ResolutionCache,
};
use crate::market::series::lookup;
use crate::schema::AssetKind;
use crate::text::{concat, text_eq, to_upper, upper_text};
use crate::time::{now_secs, MAX_UTC_SECS};

verus! {

/// The currency of the foreign-exchange pair for a quote currency, and
/// how many quoted units make one unit of that currency: prices quoted in
/// pence (`GBp`, `GBX`) are converted through pounds, 100 pence a pound.
pub open spec fn fx_currency_spec(currency: Seq<char>) -> (Seq<char>, u32) {
    if currency == "GBp"@ || currency == "GBX"@ {
        ("GBP"@, 100)
    } else {
        (currency, 1)
    }
}

/// See [`fx_currency_spec`]: a price in `currency` divided by the second
/// component is a price in the first.
pub fn normalize_currency_for_fx(currency: &str) -> (r: (String, u32))
    ensures
        (r.0@, r.1) == fx_currency_spec(currency@),
{
    if text_eq(currency, "GBp") || text_eq(currency, "GBX") {
        (String::from_str("GBP"), 100)
    } else {
        (String::from_str(currency), 1)
    }
}

/// `i` is the last point among those with the latest timestamp at or
/// before `ts`.
pub open spec fn is_pick<V>(points: Seq<(i64, V)>, ts: int, i: int) -> bool {
    &&& 0 <= i < points.len()
    &&& points[i].0 <= ts
    &&& forall|j: int|
        0 <= j < points.len() && points[j].0 <= ts ==> {
            ||| points[j].0 < points[i].0
            ||| (points[j].0 == points[i].0 && j <= i)
        }
}

/// Value of the latest point at or before `ts` (of the last such point
/// when several share that timestamp); `None` when every point is after
/// `ts`. The points need not be sorted.
pub fn closest_at_or_before<V: Copy>(points: &[(i64, V)], ts: i64) -> (r: Option<V>)
    ensures
        match r {
            Some(v) => exists|i: int| #[trigger] is_pick(points@, ts as int, i) && points@[i].1 == v,
            None => forall|j: int| 0 <= j < points@.len() ==> points@[j].0 > ts,
        },
{
    let mut best: Option<usize> = None;
    let mut j: usize = 0;
    while j < points.len()
        invariant
            j <= points@.len(),
            match best {
                Some(b) => b < j && is_pick(points@.take(j as int), ts as int, b as int),
                None => forall|k: int| 0 <= k < j ==> points@[k].0 > ts,
            },
        decreases points@.len() - j,
    {
        let t = points[j].0;
        let ghost prefix = points@.take(j as int);
        let ghost next = points@.take(j + 1);
        if t <= ts {
            match best {
                Some(b) => {
                    if t >= points[b].0 {
                        best = Some(j);
                    }
                },
                None => {
                    best = Some(j);
                },
            }
        }
        proof {
            match best {
                Some(b) => {
                    assert forall|k: int| 0 <= k < next.len() && next[k].0 <= ts implies {
                        ||| next[k].0 < next[b as int].0
                        ||| (next[k].0 == next[b as int].0 && k <= b)
                    } by {
                        if k < j {
                            assert(next[k] == prefix[k]);
                        }
                    }
                },
                None => {},
            }
        }
        j = j + 1;
    }
    proof {
        assert(points@.take(points@.len() as int) == points@);
    }
    match best {
        Some(b) => Some(points[b].1),
        None => None,
    }
}

/// The cached answer for `symbol` at bucket `aligned_ts`: when that bucket
/// is the current one (`now`), only a point in exactly that bucket
/// counts, so that an old value is never served as a price "now"; for a
/// past bucket, the latest point at or before it does.
pub open spec fn cached_answer<V>(
    series: Map<i64, V>,
    resolution: Resolution,
    aligned_ts: int,
    now: int,
) -> Option<V> {
    if spec_is_live_bucket(aligned_ts, resolution, now) {
        lookup(series, aligned_ts as i64)
    } else {
        value_at_or_before_spec(series, aligned_ts)
    }
}

/// [`cached_answer`] of `cache` for `symbol` at the bucket of `ts`, with
/// the clock at `now`.
pub fn cached_price_at<V: Copy>(cache: &ResolutionCache<V>, symbol: &str, ts: i64, now: i64) -> (r:
    Option<V>)
    requires
        0 <= now,
        cache.spec_resolution().spec_align(ts as int) >= i64::MIN,
    ensures
        r == cached_answer(
            series_of(cache@, upper_text(symbol@)),
            cache.spec_resolution(),
            cache.spec_resolution().spec_align(ts as int),
            now as int,
        ),
{
    let resolution = cache.resolution();
    let aligned = resolution.align(ts);
    proof {
        crate::market::cache::lemma_align_idempotent(resolution, ts as int);
    }
    if is_live_bucket_at(aligned, resolution, now) {
        cache.get_exact(symbol, aligned)
    } else {
        cache.get_closest(symbol, aligned)
    }
}

/// [`cached_price_at`] with the clock read now.
pub fn cached_price<V: Copy>(cache: &ResolutionCache<V>, symbol: &str, ts: i64) -> (r: Option<V>)
    requires
        cache.spec_resolution().spec_align(ts as int) >= i64::MIN,
    ensures
        exists|now: int|
            0 <= now <= MAX_UTC_SECS && r == #[trigger] cached_answer(
                series_of(cache@, upper_text(symbol@)),
                cache.spec_resolution(),
                cache.spec_resolution().spec_align(ts as int),
                now,
            ),
{
    let now = now_secs();
    cached_price_at(cache, symbol, ts, now)
}

/// How a cash balance is valued in EUR.
#[derive(Debug, Clone, Copy, PartialEq, Eq, Structural)]
pub enum CashPricing {
    /// Worth its face value in EUR (EUR and EUR stablecoins).
    Par,
    /// Worth the inverse of the EUR→USD rate (USD and USD stablecoins).
    InverseUsdRate,
    /// Worth the inverse of the EUR→GBP rate.
    InverseGbpRate,
    /// No known valuation: priced at zero.
    Unpriced,
}

pub open spec fn cash_pricing_spec(symbol_upper: Seq<char>) -> CashPricing {
    if symbol_upper == "EUR"@ || symbol_upper == "EURI"@ {
        CashPricing::Par
    } else if symbol_upper == "USD"@ || symbol_upper == "USDT"@ || symbol_upper == "USDC"@
        || symbol_upper == "BUSD"@ {
        CashPricing::InverseUsdRate
    } else if symbol_upper == "GBP"@ {
        CashPricing::InverseGbpRate
    } else {
        CashPricing::Unpriced
    }
}

/// Valuation rule of a cash asset, by its symbol in upper case.
pub fn cash_pricing_upper(symbol_upper: &str) -> (r: CashPricing)
    ensures
        r == cash_pricing_spec(symbol_upper@),
        (symbol_upper@ == "USD"@ || symbol_upper@ == "USDT"@ || symbol_upper@ == "USDC"@
            || symbol_upper@ == "BUSD"@) <==> r == CashPricing::InverseUsdRate,
        (symbol_upper@ == "EUR"@ || symbol_upper@ == "EURI"@) <==> r == CashPricing::Par,
        symbol_upper@ == "GBP"@ <==> r == CashPricing::InverseGbpRate,
{
    proof {
        lemma_cash_valuation_rules(symbol_upper@);
    }
    let s = symbol_upper;
    if text_eq(s, "EUR") || text_eq(s, "EURI") {
        CashPricing::Par
    } else if text_eq(s, "USD") || text_eq(s, "USDT") || text_eq(s, "USDC") || text_eq(s, "BUSD") {
        CashPricing::InverseUsdRate
    } else if text_eq(s, "GBP") {
        CashPricing::InverseGbpRate
    } else {
        CashPricing::Unpriced
    }
}

/// Valuation rule of a cash asset, by its symbol in any case.
pub fn cash_pricing(symbol: &str) -> (r: CashPricing)
    ensures
        r == cash_pricing_spec(upper_text(symbol@)),
        (upper_text(symbol@) == "USD"@ || upper_text(symbol@) == "USDT"@ || upper_text(symbol@)
            == "USDC"@ || upper_text(symbol@) == "BUSD"@) <==> r == CashPricing::InverseUsdRate,
{
    proof {
        lemma_cash_valuation_rules(upper_text(symbol@));
    }
    let up = to_upper(symbol);
    cash_pricing_upper(up.as_str())
}

/// The points of a feed given as parallel columns of timestamps and
/// closes: pairs taken position by position (up to the shorter column),
/// keeping those whose close is present.
pub open spec fn zipped_points<V>(timestamps: Seq<i64>, closes: Seq<Option<V>>) -> Seq<(i64, V)>
    decreases timestamps.len(),
{
    if timestamps.len() == 0 || closes.len() == 0 {
        Seq::empty()
    } else {
        let rest = zipped_points(timestamps.drop_first(), closes.drop_first());
        match closes[0] {
            Some(c) => seq![(timestamps[0], c)] + rest,
            None => rest,
        }
    }
}

proof fn lemma_zipped_step<V>(timestamps: Seq<i64>, closes: Seq<Option<V>>, n: int)
    requires
        0 <= n < timestamps.len(),
        n < closes.len(),
    ensures
        zipped_points(timestamps.take(n + 1), closes.take(n + 1)) == zipped_points(
            timestamps.take(n),
            closes.take(n),
        ) + match closes[n] {
            Some(c) => seq![(timestamps[n], c)],
            None => Seq::<(i64, V)>::empty(),
        },
    decreases n,
{
    let t1 = timestamps.take(n + 1);
    let c1 = closes.take(n + 1);
    if n == 0 {
        assert(t1.drop_first() =~= Seq::<i64>::empty());
        assert(timestamps.take(0) =~= Seq::<i64>::empty());
        match closes[0] {
            Some(c) => {
                assert(zipped_points(t1.drop_first(), c1.drop_first()) =~= Seq::<(i64, V)>::empty());
            },
            None => {},
        }
    } else {
        lemma_zipped_step(timestamps.drop_first(), closes.drop_first(), n - 1);
        assert(t1.drop_first() =~= timestamps.drop_first().take(n));
        assert(c1.drop_first() =~= closes.drop_first().take(n));
        assert(timestamps.take(n).drop_first() =~= timestamps.drop_first().take(n - 1));
        assert(closes.take(n).drop_first() =~= closes.drop_first().take(n - 1));
        match closes[0] {
            Some(c) => {},
            None => {},
        }
    }
}

/// See [`zipped_points`].
pub fn zip_points<V: Copy>(timestamps: &[i64], closes: &[Option<V>]) -> (r: Vec<(i64, V)>)
    ensures
        r@ == zipped_points(timestamps@, closes@),
{
    let n = if timestamps.len() < closes.len() {
        timestamps.len()
    } else {
        closes.len()
    };
    let mut out: Vec<(i64, V)> = Vec::new();
    let mut i: usize = 0;
    proof {
        assert(timestamps@.take(0) =~= Seq::<i64>::empty());
    }
    while i < n
        invariant
            n <= timestamps@.len(),
            n <= closes@.len(),
            n == timestamps@.len() || n == closes@.len(),
            i <= n,
            out@ == zipped_points(timestamps@.take(i as int), closes@.take(i as int)),
        decreases n - i,
    {
        proof {
            lemma_zipped_step(timestamps@, closes@, i as int);
        }
        match closes[i] {
            Some(c) => {
                out.push((timestamps[i], c));
            },
            None => {},
        }
        i = i + 1;
    }
    proof {
        lemma_zipped_truncate(timestamps@, closes@, n as int);
    }
    out
}

proof fn lemma_zipped_truncate<V>(timestamps: Seq<i64>, closes: Seq<Option<V>>, n: int)
    requires
        n <= timestamps.len(),
        n <= closes.len(),
        n == timestamps.len() || n == closes.len(),
        0 <= n,
    ensures
        zipped_points(timestamps.take(n), closes.take(n)) == zipped_points(timestamps, closes),
    decreases n,
{
    if n == 0 {
    } else {
        lemma_zipped_truncate(timestamps.drop_first(), closes.drop_first(), n - 1);
        assert(timestamps.take(n).drop_first() =~= timestamps.drop_first().take(n - 1));
        assert(closes.take(n).drop_first() =~= closes.drop_first().take(n - 1));
    }
}

/// Where the EUR price of an asset comes from.
#[derive(Debug)]
pub enum PriceSource<V> {
    /// A cash balance, valued by this rule.
    Cash(CashPricing),
    /// A cached value.
    Cached(V),
    /// The hourly close on Binance (for a crypto).
    Binance,
    /// The daily close on Yahoo Finance of this ticker (for a stock).
    Yahoo(String),
    /// No source: a stock without a ticker.
    Unavailable,
}

pub enum PriceSourceView<V> {
    Cash(CashPricing),
    Cached(V),
    Binance,
    Yahoo(Seq<char>),
    Unavailable,
}

impl<V> View for PriceSource<V> {
    type V = PriceSourceView<V>;

    open spec fn view(&self) -> PriceSourceView<V> {
        match self {
            PriceSource::Cash(c) => PriceSourceView::Cash(*c),
            PriceSource::Cached(v) => PriceSourceView::Cached(*v),
            PriceSource::Binance => PriceSourceView::Binance,
            PriceSource::Yahoo(t) => PriceSourceView::Yahoo(t@),
            PriceSource::Unavailable => PriceSourceView::Unavailable,
        }
    }
}

/// The source of the price of `symbol` at the bucket of `ts`, the clock
/// at `now`: cash follows its rule; otherwise the cached answer (see
/// [`cached_answer`]) when there is one; otherwise Binance for a crypto,
/// Yahoo with the asset's ticker for a stock, none for a stock without a
/// ticker.
pub open spec fn price_source_spec<V>(
    cache: Map<Seq<char>, Map<i64, V>>,
    resolution: Resolution,
    symbol: Seq<char>,
    kind: AssetKind,
    ticker: Option<Seq<char>>,
    ts: int,
    now: int,
) -> PriceSourceView<V> {
    if kind == AssetKind::Cash {
        PriceSourceView::Cash(cash_pricing_spec(upper_text(symbol)))
    } else {
        match cached_answer(series_of(cache, upper_text(symbol)), resolution, resolution.spec_align(ts), now) {
            Some(v) => PriceSourceView::Cached(v),
            None => if kind == AssetKind::Crypto {
                PriceSourceView::Binance
            } else {
                match ticker {
                    Some(t) => PriceSourceView::Yahoo(t),
                    None => PriceSourceView::Unavailable,
                }
            },
        }
    }
}

/// The text of an optional string slice.
pub open spec fn str_opt_view(s: Option<&str>) -> Option<Seq<char>> {
    match s {
        Some(t) => Some(t@),
        None => None,
    }
}

/// See [`price_source_spec`].
pub fn price_source_at<V: Copy>(
    cache: &ResolutionCache<V>,
    symbol: &str,
    kind: AssetKind,
    ticker: Option<&str>,
    ts: i64,
    now: i64,
) -> (r: PriceSource<V>)
    requires
        0 <= now,
        cache.spec_resolution().spec_align(ts as int) >= i64::MIN,
    ensures
        r@ == price_source_spec(
            cache@,
            cache.spec_resolution(),
            symbol@,
            kind,
            str_opt_view(ticker),
            ts as int,
            now as int,
        ),
{
    if kind == AssetKind::Cash {
        return PriceSource::Cash(cash_pricing(symbol));
    }
    match cached_price_at(cache, symbol, ts, now) {
        Some(v) => PriceSource::Cached(v),
        None => match kind {
            AssetKind::Crypto => PriceSource::Binance,
            _ => match ticker {
                Some(t) => PriceSource::Yahoo(String::from_str(t)),
                None => PriceSource::Unavailable,
            },
        },
    }
}

/// [`price_source_at`] with the clock read now.
pub fn price_source<V: Copy>(
    cache: &ResolutionCache<V>,
    symbol: &str,
    kind: AssetKind,
    ticker: Option<&str>,
    ts: i64,
) -> (r: PriceSource<V>)
    requires
        cache.spec_resolution().spec_align(ts as int) >= i64::MIN,
    ensures
        exists|now: int|
            0 <= now <= MAX_UTC_SECS && r@ == #[trigger] price_source_spec(
                cache@,
                cache.spec_resolution(),
                symbol@,
                kind,
                str_opt_view(ticker),
                ts as int,
                now,
            ),
{
    let now = now_secs();
    price_source_at(cache, symbol, kind, ticker, ts, now)
}

/// Where an EUR -> `currency` rate comes from.
#[derive(Debug)]
pub enum RateSource<V> {
    /// The euro itself: a rate of one.
    Unit,
    /// A cached rate.
    Cached(V),
    /// The Yahoo pair `EUR<currency>=X`, to be cached under the currency.
    Fetch { pair: String, currency: String },
}

pub enum RateSourceView<V> {
    Unit,
    Cached(V),
    Fetch { pair: Seq<char>, currency: Seq<char> },
}

impl<V> View for RateSource<V> {
    type V = RateSourceView<V>;

    open spec fn view(&self) -> RateSourceView<V> {
        match self {
            RateSource::Unit => RateSourceView::Unit,
            RateSource::Cached(v) => RateSourceView::Cached(*v),
            RateSource::Fetch { pair, currency } => RateSourceView::Fetch { pair: pair@, currency: currency@ },
        }
    }
}

/// The source of the rate EUR -> `currency` at the bucket of `ts`, the
/// clock at `now`: the currency is first taken to its foreign-exchange
/// pair (see [`fx_currency_spec`]); the euro needs none; otherwise the
/// cached answer, else the Yahoo pair.
pub open spec fn rate_source_spec<V>(
    cache: Map<Seq<char>, Map<i64, V>>,
    resolution: Resolution,
    currency: Seq<char>,
    ts: int,
    now: int,
) -> RateSourceView<V> {
    let fx = fx_currency_spec(currency).0;
    if fx == "EUR"@ {
        RateSourceView::Unit
    } else {
        match cached_answer(series_of(cache, upper_text(fx)), resolution, resolution.spec_align(ts), now) {
            Some(v) => RateSourceView::Cached(v),
            None => RateSourceView::Fetch { pair: "EUR"@ + fx + "=X"@, currency: fx },
        }
    }
}

/// See [`rate_source_spec`].
pub fn rate_source_at<V: Copy>(cache: &ResolutionCache<V>, currency: &str, ts: i64, now: i64) -> (r: RateSource<V>)
    requires
        0 <= now,
        cache.spec_resolution().spec_align(ts as int) >= i64::MIN,
    ensures
        r@ == rate_source_spec(cache@, cache.spec_resolution(), currency@, ts as int, now as int),
{
    let (fx, _) = normalize_currency_for_fx(currency);
    if text_eq(fx.as_str(), "EUR") {
        return RateSource::Unit;
    }
    match cached_price_at(cache, fx.as_str(), ts, now) {
        Some(v) => RateSource::Cached(v),
        None => {
            let mut pair = concat("EUR", fx.as_str());
            pair.append("=X");
            RateSource::Fetch { pair, currency: fx }
        },
    }
}

/// [`rate_source_at`] with the clock read now.
pub fn rate_source<V: Copy>(cache: &ResolutionCache<V>, currency: &str, ts: i64) -> (r: RateSource<V>)
    requires
        cache.spec_resolution().spec_align(ts as int) >= i64::MIN,
    ensures
        exists|now: int|
            0 <= now <= MAX_UTC_SECS && r@ == #[trigger] rate_source_spec(
                cache@,
                cache.spec_resolution(),
                currency@,
                ts as int,
                now,
            ),
{
    let now = now_secs();
    rate_source_at(cache, currency, ts, now)
}

/// How cash is valued, by its upper-case symbol: every USD-pegged symbol
/// (USD, USDT, USDC, BUSD) and only those go through the inverse EUR→USD
/// rate; EUR and EURI, and only those, are at par; GBP alone goes through
/// the inverse EUR→GBP rate.
pub proof fn lemma_cash_valuation_rules(symbol_upper: Seq<char>)
    ensures
        (symbol_upper == "USD"@ || symbol_upper == "USDT"@ || symbol_upper == "USDC"@ || symbol_upper
            == "BUSD"@) <==> cash_pricing_spec(symbol_upper) == CashPricing::InverseUsdRate,
        (symbol_upper == "EUR"@ || symbol_upper == "EURI"@) <==> cash_pricing_spec(symbol_upper)
            == CashPricing::Par,
        symbol_upper == "GBP"@ <==> cash_pricing_spec(symbol_upper) == CashPricing::InverseGbpRate,
{
    reveal_strlit("EUR");
    reveal_strlit("EURI");
    reveal_strlit("USD");
    reveal_strlit("USDT");
    reveal_strlit("USDC");
    reveal_strlit("BUSD");
    reveal_strlit("GBP");
    if symbol_upper == "USDC"@ || symbol_upper == "USDT"@ || symbol_upper == "USD"@ || symbol_upper == "BUSD"@ {
        assert(symbol_upper != "EUR"@ && symbol_upper != "EURI"@) by {
            assert(symbol_upper[0] != 'E');
        }
    }
    if symbol_upper == "GBP"@ {
        assert(symbol_upper[0] == 'G');
    }
}

} // verus!
