//! Trades and the periods over which their frequency is counted.
//!
//! A trade is a buy or a sell of a non-cash asset: deposits and
//! withdrawals (transfers, the cash legs of XTB trades, dividends) and
//! fees are not. A Binance convert is two trades (a sell and a buy).
//! Months are `(year, month)`; weeks are identified by their Sunday, as in
//! the history.
use vstd::prelude::*;

use crate::history::{week_end, week_end_spec, weeks_from};
use crate::market::series::{points_map, put, strictly_sorted};
use crate::schema::{AssetKind, Transaction, TransactionKind};
use crate::time::{MAX_DAY, MIN_DAY};

verus! {

/// A buy or a sell of an asset that is not cash.
pub open spec fn is_trade_spec<N>(tx: Transaction<N>) -> bool {
    (tx.kind == TransactionKind::Buy || tx.kind == TransactionKind::Sell) && tx.asset.kind
        != AssetKind::Cash
}

/// Whether `tx` is a trade.
pub fn is_trade<N>(tx: &Transaction<N>) -> (r: bool)
    ensures
        r == is_trade_spec(*tx),
{
    (tx.kind == TransactionKind::Buy || tx.kind == TransactionKind::Sell) && tx.asset.kind
        != AssetKind::Cash
}

/// Positions of the trades of `txs`, in log order.
pub fn trade_txs<N>(txs: &[Transaction<N>]) -> (r: Vec<usize>)
    ensures
        forall|k: int| 0 <= k < r@.len() ==> #[trigger] r@[k] < txs@.len() && is_trade_spec(txs@[r@[k] as int]),
        forall|i: int| 0 <= i < txs@.len() && is_trade_spec(#[trigger] txs@[i]) ==> exists|k: int|
            0 <= k < r@.len() && r@[k] == i,
        forall|a: int, b: int| 0 <= a < b < r@.len() ==> #[trigger] r@[a] < #[trigger] r@[b],
        forall|k: int|
            0 <= k < r@.len() ==> (txs@[#[trigger] r@[k] as int].kind == TransactionKind::Buy
                || txs@[r@[k] as int].kind == TransactionKind::Sell) && txs@[r@[k] as int].asset.kind
                != AssetKind::Cash,
{
    let mut out: Vec<usize> = Vec::new();
    let mut i: usize = 0;
    while i < txs.len()
        invariant
            i <= txs@.len(),
            forall|k: int| 0 <= k < out@.len() ==> #[trigger] out@[k] < i && is_trade_spec(txs@[out@[k] as int]),
            forall|j: int| 0 <= j < i && is_trade_spec(#[trigger] txs@[j]) ==> exists|k: int|
                0 <= k < out@.len() && out@[k] == j,
            forall|a: int, b: int| 0 <= a < b < out@.len() ==> #[trigger] out@[a] < #[trigger] out@[b],
        decreases txs@.len() - i,
    {
        if is_trade(&txs[i]) {
            let ghost before = out@;
            out.push(i);
            proof {
                assert forall|j: int| 0 <= j < i + 1 && is_trade_spec(#[trigger] txs@[j]) implies exists|k: int|
                    0 <= k < out@.len() && out@[k] == j by {
                    if j < i {
                        let k = choose|k: int| 0 <= k < before.len() && before[k] == j;
                        assert(out@[k] == j);
                    } else {
                        assert(out@[before.len() as int] == j);
                    }
                }
            }
        }
        i = i + 1;
    }
    out
}

/// Trade `i` is listed before trade `j`: an earlier second, or the same
/// second and an earlier place in the log (times are compared to the
/// second, as in their RFC 3339 text).
pub open spec fn listed_before<N>(txs: Seq<Transaction<N>>, i: int, j: int) -> bool {
    ||| txs[i].time.secs < txs[j].time.secs
    ||| (txs[i].time.secs == txs[j].time.secs && i < j)
}

/// `order` lists every trade of `txs` once, oldest first (to the second;
/// in log order within a second).
pub open spec fn is_trade_listing<N>(txs: Seq<Transaction<N>>, order: Seq<usize>) -> bool {
    &&& forall|k: int| 0 <= k < order.len() ==> #[trigger] order[k] < txs.len() && is_trade_spec(txs[order[k] as int])
    &&& forall|i: int| 0 <= i < txs.len() && is_trade_spec(#[trigger] txs[i]) ==> exists|k: int|
        0 <= k < order.len() && order[k] == i
    &&& forall|a: int, b: int|
        0 <= a < b < order.len() ==> listed_before(txs, #[trigger] order[a] as int, #[trigger] order[b] as int)
}

/// Positions of the trades of `txs`, oldest first; see
/// [`is_trade_listing`].
pub fn trades_by_time<N>(txs: &[Transaction<N>]) -> (r: Vec<usize>)
    ensures
        is_trade_listing(txs@, r@),
{
    let mut order: Vec<usize> = Vec::new();
    let mut i: usize = 0;
    while i < txs.len()
        invariant
            i <= txs@.len(),
            forall|k: int| 0 <= k < order@.len() ==> #[trigger] order@[k] < i && is_trade_spec(txs@[order@[k] as int]),
            forall|j: int| 0 <= j < i && is_trade_spec(#[trigger] txs@[j]) ==> exists|k: int|
                0 <= k < order@.len() && order@[k] == j,
            forall|a: int, b: int|
                0 <= a < b < order@.len() ==> listed_before(txs@, #[trigger] order@[a] as int, #[trigger] order@[b] as int),
        decreases txs@.len() - i,
    {
        if is_trade(&txs[i]) {
            let t = txs[i].time.secs;
            let mut lo: usize = 0;
            while lo < order.len() && txs[order[lo]].time.secs <= t
                invariant
                    lo <= order@.len(),
                    forall|k: int| 0 <= k < order@.len() ==> #[trigger] order@[k] < i,
                    i < txs@.len(),
                    t == txs@[i as int].time.secs,
                    forall|k: int| 0 <= k < lo ==> txs@[order@[k] as int].time.secs <= t,
                decreases order@.len() - lo,
            {
                lo = lo + 1;
            }
            proof {
                assert forall|k: int| lo <= k < order@.len() implies txs@[order@[k] as int].time.secs > t by {
                    if k > lo {
                        assert(listed_before(txs@, order@[lo as int] as int, order@[k] as int));
                    }
                }
            }
            let ghost old_order = order@;
            order.insert(lo, i);
            proof {
                let o = order@;
                assert(o == old_order.insert(lo as int, i));
                assert forall|a: int, b: int| 0 <= a < b < o.len() implies listed_before(
                    txs@,
                    #[trigger] o[a] as int,
                    #[trigger] o[b] as int,
                ) by {
                    if b < lo {
                        assert(o[a] == old_order[a] && o[b] == old_order[b]);
                    } else if b == lo {
                        assert(o[a] == old_order[a]);
                        assert(old_order[a] < i);
                    } else if a < lo {
                        assert(o[a] == old_order[a] && o[b] == old_order[b - 1]);
                    } else if a == lo {
                        assert(o[b] == old_order[b - 1]);
                    } else {
                        assert(o[a] == old_order[a - 1] && o[b] == old_order[b - 1]);
                    }
                }
                assert forall|k: int| 0 <= k < o.len() implies #[trigger] o[k] < i + 1 && is_trade_spec(
                    txs@[o[k] as int],
                ) by {
                    if k < lo {
                        assert(o[k] == old_order[k]);
                    } else if k > lo {
                        assert(o[k] == old_order[k - 1]);
                    }
                }
                assert forall|j: int| 0 <= j < i + 1 && is_trade_spec(#[trigger] txs@[j]) implies exists|k: int|
                    0 <= k < o.len() && o[k] == j by {
                    if j == i {
                        assert(o[lo as int] == j);
                    } else {
                        let k = choose|k: int| 0 <= k < old_order.len() && old_order[k] == j;
                        if k < lo {
                            assert(o[k] == j);
                        } else {
                            assert(o[k + 1] == j);
                        }
                    }
                }
            }
        }
        i = i + 1;
    }
    order
}

/// Months counted from year 0: `(year, month)` with month in 1..=12.
pub open spec fn month_index(y: int, m: int) -> int {
    y * 12 + (m - 1)
}

/// The month with the given index.
pub open spec fn month_of_index(k: int) -> (int, int) {
    (k / 12, k % 12 + 1)
}

/// The key of a month, for [`group_by_period`].
pub fn month_key(month: (i32, u32)) -> (r: i64)
    requires
        1 <= month.1 <= 12,
    ensures
        r == month_index(month.0 as int, month.1 as int),
{
    month.0 as i64 * 12 + (month.1 as i64 - 1)
}

/// The month of a key made by [`month_key`].
pub fn month_of_key(k: i64) -> (r: (i32, u32))
    requires
        i32::MIN * 12 <= k < (i32::MAX + 1) * 12,
    ensures
        (r.0 as int, r.1 as int) == month_of_index(k as int),
        1 <= r.1 <= 12,
{
    let y = match k.checked_div_euclid(12) {
        Some(q) => q,
        None => 0,
    };
    let m = match k.checked_rem_euclid(12) {
        Some(q) => q,
        None => 0,
    };
    proof {
        assert(k == 12 * (k / 12) + k % 12) by (nonlinear_arith);
        assert(0 <= k % 12 < 12);
        assert(i32::MIN <= k / 12 <= i32::MAX) by (nonlinear_arith)
            requires
                i32::MIN * 12 <= k < (i32::MAX + 1) * 12,
                k == 12 * (k / 12) + k % 12,
                0 <= k % 12 < 12,
        ;
    }
    (y as i32, (m + 1) as u32)
}

/// Every month from `first` to `last` inclusive, in order (none when
/// `last` is before `first`).
pub fn months_between(first: (i32, u32), last: (i32, u32)) -> (r: Vec<(i32, u32)>)
    requires
        1 <= first.1 <= 12,
        1 <= last.1 <= 12,
        last.0 < i32::MAX,
    ensures
        r@.len() == if month_index(last.0 as int, last.1 as int) >= month_index(
            first.0 as int,
            first.1 as int,
        ) {
            month_index(last.0 as int, last.1 as int) - month_index(first.0 as int, first.1 as int)
                + 1
        } else {
            0
        },
        forall|k: int|
            0 <= k < r@.len() ==> (#[trigger] r@[k].0 as int, r@[k].1 as int) == month_of_index(
                month_index(first.0 as int, first.1 as int) + k,
            ),
{
    let mut y = first.0;
    let mut m = first.1;
    let mut out: Vec<(i32, u32)> = Vec::new();
    let ghost start = month_index(first.0 as int, first.1 as int);
    let ghost end = month_index(last.0 as int, last.1 as int);
    proof {
        assert(month_of_index(start) == (first.0 as int, first.1 as int)) by (nonlinear_arith)
            requires
                start == first.0 * 12 + (first.1 - 1),
                1 <= first.1 <= 12,
        ;
    }
    while y < last.0 || (y == last.0 && m <= last.1)
        invariant
            1 <= m <= 12,
            last.0 < i32::MAX,
            1 <= last.1 <= 12,
            y <= last.0 + 1 || out@.len() == 0,
            month_index(y as int, m as int) == start + out@.len(),
            start <= end + 1 ==> month_index(y as int, m as int) <= end + 1,
            start > end ==> out@.len() == 0,
            forall|k: int|
                0 <= k < out@.len() ==> (#[trigger] out@[k].0 as int, out@[k].1 as int) == month_of_index(start + k),
            end == month_index(last.0 as int, last.1 as int),
            start == month_index(first.0 as int, first.1 as int),
            month_of_index(month_index(y as int, m as int)) == (y as int, m as int),
        decreases end + 1 - month_index(y as int, m as int),
    {
        out.push((y, m));
        if m == 12 {
            y = y + 1;
            m = 1;
        } else {
            m = m + 1;
        }
        proof {
            assert(month_of_index(month_index(y as int, m as int)) == (y as int, m as int)) by (nonlinear_arith)
                requires
                    1 <= m <= 12,
            ;
        }
    }
    proof {
        if start <= end {
            assert(month_index(y as int, m as int) == end + 1);
        }
    }
    out
}

/// Every Sunday from the week of `first` to the week of `last`, in
/// order.
pub fn week_ends_between(first: i64, last: i64) -> (r: Vec<i64>)
    requires
        MIN_DAY <= first,
        MIN_DAY <= last,
        week_end_spec(first as int) <= MAX_DAY,
        week_end_spec(last as int) + 7 <= MAX_DAY,
    ensures
        r@.map_values(|w: i64| w as int) == weeks_from(
            week_end_spec(first as int),
            week_end_spec(last as int),
            Seq::<i64>::empty(),
        ),
{
    let stop = week_end(last);
    let mut cursor = week_end(first);
    let ghost start = cursor as int;
    let mut out: Vec<i64> = Vec::new();
    while cursor <= stop
        invariant
            stop == week_end_spec(last as int),
            stop + 7 <= MAX_DAY,
            MIN_DAY <= cursor,
            out@.map_values(|w: i64| w as int) + weeks_from(cursor as int, stop as int, Seq::<i64>::empty())
                == weeks_from(start, stop as int, Seq::<i64>::empty()),
        decreases stop - cursor + 7,
    {
        let ghost before = out@.map_values(|w: i64| w as int);
        out.push(cursor);
        proof {
            assert(out@.map_values(|w: i64| w as int) =~= before.push(cursor as int));
            assert(!Seq::<i64>::empty().contains(cursor));
            assert(before.push(cursor as int) + weeks_from(cursor + 7, stop as int, Seq::<i64>::empty()) =~= before
                + (seq![cursor as int] + weeks_from(cursor + 7, stop as int, Seq::<i64>::empty())));
        }
        cursor = cursor + 7;
    }
    out
}

/// The positions of `keys` that hold `p`, in increasing order.
pub open spec fn members_of(keys: Seq<i64>, p: i64) -> Seq<usize>
    decreases keys.len(),
{
    if keys.len() == 0 {
        Seq::empty()
    } else {
        let rest = members_of(keys.drop_last(), p);
        if keys.last() == p {
            rest.push((keys.len() - 1) as usize)
        } else {
            rest
        }
    }
}

/// How many of the trades at the positions of `keys` that hold `p` are
/// buys.
pub open spec fn buys_of(keys: Seq<i64>, is_buy: Seq<bool>, p: i64) -> nat
    decreases keys.len(),
{
    if keys.len() == 0 {
        0
    } else {
        let rest = buys_of(keys.drop_last(), is_buy.take(keys.len() - 1), p);
        if keys.last() == p && is_buy[keys.len() - 1] {
            rest + 1
        } else {
            rest
        }
    }
}

/// The trades of one period (a month or a week, by its key).
pub struct PeriodTrades {
    pub key: i64,
    /// Positions of its trades in the list of trades, in order.
    pub members: Vec<usize>,
    pub buys: usize,
    pub sells: usize,
}

proof fn lemma_members_len(keys: Seq<i64>, is_buy: Seq<bool>, p: i64)
    requires
        is_buy.len() == keys.len(),
    ensures
        buys_of(keys, is_buy, p) <= members_of(keys, p).len() <= keys.len(),
    decreases keys.len(),
{
    if keys.len() > 0 {
        lemma_members_len(keys.drop_last(), is_buy.take(keys.len() - 1), p);
    }
}

/// The trades of period `p`, found by one pass over `keys`.
fn period_of(keys: &[i64], is_buy: &[bool], p: i64) -> (r: PeriodTrades)
    requires
        keys@.len() == is_buy@.len(),
    ensures
        r.key == p,
        r.members@ == members_of(keys@, p),
        r.buys == buys_of(keys@, is_buy@, p),
        r.sells == members_of(keys@, p).len() - buys_of(keys@, is_buy@, p),
{
    let mut members: Vec<usize> = Vec::new();
    let mut buys: usize = 0;
    let mut i: usize = 0;
    while i < keys.len()
        invariant
            keys@.len() == is_buy@.len(),
            i <= keys@.len(),
            members@ == members_of(keys@.take(i as int), p),
            buys == buys_of(keys@.take(i as int), is_buy@.take(i as int), p),
        decreases keys@.len() - i,
    {
        proof {
            assert(keys@.take(i + 1).drop_last() =~= keys@.take(i as int));
            assert(is_buy@.take(i + 1).take(i as int) =~= is_buy@.take(i as int));
            lemma_members_len(keys@.take(i as int), is_buy@.take(i as int), p);
        }
        if keys[i] == p {
            members.push(i);
            if is_buy[i] {
                buys = buys + 1;
            }
        }
        i = i + 1;
    }
    proof {
        assert(keys@.take(keys@.len() as int) =~= keys@);
        assert(is_buy@.take(is_buy@.len() as int) =~= is_buy@);
        lemma_members_len(keys@, is_buy@, p);
    }
    let sells = members.len() - buys;
    PeriodTrades { key: p, members, buys, sells }
}

proof fn lemma_take_one_more(s: Seq<i64>, n: int, p: i64)
    requires
        0 <= n < s.len(),
    ensures
        s.take(n + 1).contains(p) <==> (s.take(n).contains(p) || s[n] == p),
{
    if s.take(n + 1).contains(p) {
        let w = choose|w: int| 0 <= w < n + 1 && #[trigger] s.take(n + 1)[w] == p;
        if w < n {
            assert(s.take(n)[w] == p);
        }
    }
    if s.take(n).contains(p) {
        let w = choose|w: int| 0 <= w < n && #[trigger] s.take(n)[w] == p;
        assert(s.take(n + 1)[w] == p);
    }
    if s[n] == p {
        assert(s.take(n + 1)[n] == p);
    }
}

/// Groups trades by period: `keys[i]` is the period of trade `i` and
/// `is_buy[i]` whether it is a buy. The periods are those of the trades
/// and those of `filler` (the periods to show even without a trade), in
/// increasing order of key, each once, with the positions of its trades
/// and how many are buys and sells.
pub fn group_by_period(keys: &[i64], is_buy: &[bool], filler: &[i64]) -> (r: Vec<PeriodTrades>)
    requires
        keys@.len() == is_buy@.len(),
    ensures
        forall|i: int, j: int| 0 <= i < j < r@.len() ==> r@[i].key < r@[j].key,
        forall|p: i64|
            (exists|i: int| 0 <= i < r@.len() && r@[i].key == p) <==> (keys@.contains(p) || filler@.contains(p)),
        forall|i: int|
            0 <= i < r@.len() ==> {
                &&& (#[trigger] r@[i]).members@ == members_of(keys@, r@[i].key)
                &&& r@[i].buys == buys_of(keys@, is_buy@, r@[i].key)
                &&& r@[i].sells == members_of(keys@, r@[i].key).len() - buys_of(keys@, is_buy@, r@[i].key)
            },
{
    let mut periods: Vec<(i64, ())> = Vec::new();
    proof {
        assert(filler@.take(0) =~= Seq::<i64>::empty());
    }
    let mut f: usize = 0;
    while f < filler.len()
        invariant
            f <= filler@.len(),
            strictly_sorted(periods@),
            forall|p: i64| #[trigger] points_map(periods@).contains_key(p) <==> filler@.take(f as int).contains(p),
        decreases filler@.len() - f,
    {
        put(&mut periods, filler[f], ());
        proof {
            assert forall|p: i64| points_map(periods@).contains_key(p) <==> filler@.take(f + 1).contains(p) by {
                lemma_take_one_more(filler@, f as int, p);
            }
        }
        f = f + 1;
    }
    proof {
        assert(filler@.take(filler@.len() as int) =~= filler@);
        assert(keys@.take(0) =~= Seq::<i64>::empty());
    }
    let mut k: usize = 0;
    while k < keys.len()
        invariant
            k <= keys@.len(),
            strictly_sorted(periods@),
            forall|p: i64|
                #[trigger] points_map(periods@).contains_key(p) <==> (filler@.contains(p) || keys@.take(
                    k as int,
                ).contains(p)),
        decreases keys@.len() - k,
    {
        put(&mut periods, keys[k], ());
        proof {
            let ghost next = keys@.take(k + 1);
            assert forall|p: i64|
                #[trigger] points_map(periods@).contains_key(p) <==> (filler@.contains(p) || next.contains(p)) by {
                lemma_take_one_more(keys@, k as int, p);
            }
        }
        k = k + 1;
    }
    proof {
        assert(filler@.take(filler@.len() as int) =~= filler@);
        assert(keys@.take(keys@.len() as int) =~= keys@);
    }
    let mut out: Vec<PeriodTrades> = Vec::new();
    let mut j: usize = 0;
    while j < periods.len()
        invariant
            keys@.len() == is_buy@.len(),
            j <= periods@.len(),
            strictly_sorted(periods@),
            out@.len() == j,
            forall|i: int| 0 <= i < j ==> (#[trigger] out@[i]).key == periods@[i].0,
            forall|i: int|
                0 <= i < j ==> {
                    &&& (#[trigger] out@[i]).members@ == members_of(keys@, out@[i].key)
                    &&& out@[i].buys == buys_of(keys@, is_buy@, out@[i].key)
                    &&& out@[i].sells == members_of(keys@, out@[i].key).len() - buys_of(keys@, is_buy@, out@[i].key)
                },
        decreases periods@.len() - j,
    {
        let g = period_of(keys, is_buy, periods[j].0);
        out.push(g);
        j = j + 1;
    }
    proof {
        assert forall|p: i64|
            (exists|i: int| 0 <= i < out@.len() && out@[i].key == p) <==> (keys@.contains(p) || filler@.contains(p)) by {
            if exists|i: int| 0 <= i < out@.len() && out@[i].key == p {
                let i = choose|i: int| 0 <= i < out@.len() && #[trigger] out@[i].key == p;
                assert(periods@[i].0 == p);
                assert(points_map(periods@).contains_key(p));
            }
            if keys@.contains(p) || filler@.contains(p) {
                assert(points_map(periods@).contains_key(p));
                let i = choose|i: int| 0 <= i < periods@.len() && #[trigger] periods@[i].0 == p;
                assert(out@[i].key == p);
            }
        }
    }
    out
}

/// A trade belongs to the period of its key and to no other: position
/// `i` is a member of period `p` exactly when `keys[i] == p`, and the
/// members come in increasing order, each once.
pub proof fn lemma_members_of(keys: Seq<i64>, p: i64)
    requires
        keys.len() <= usize::MAX,
    ensures
        forall|k: int|
            0 <= k < members_of(keys, p).len() ==> {
                &&& (#[trigger] members_of(keys, p)[k]) < keys.len()
                &&& keys[members_of(keys, p)[k] as int] == p
            },
        forall|i: int| 0 <= i < keys.len() && keys[i] == p ==> #[trigger] members_of(keys, p).contains(i as usize),
        forall|a: int, b: int|
            0 <= a < b < members_of(keys, p).len() ==> #[trigger] members_of(keys, p)[a] < #[trigger] members_of(
                keys,
                p,
            )[b],
    decreases keys.len(),
{
    if keys.len() > 0 {
        let init = keys.drop_last();
        lemma_members_of(init, p);
        let rest = members_of(init, p);
        let n = keys.len() - 1;
        assert forall|i: int| 0 <= i < keys.len() && keys[i] == p implies #[trigger] members_of(keys, p).contains(
            i as usize,
        ) by {
            if i < n {
                assert(init[i] == keys[i]);
                assert(rest.contains(i as usize));
                let k = choose|k: int| 0 <= k < rest.len() && rest[k] == i as usize;
                assert(members_of(keys, p)[k] == i as usize);
            } else {
                assert(members_of(keys, p)[rest.len() as int] == i as usize);
            }
        }
        assert forall|k: int| 0 <= k < members_of(keys, p).len() implies {
            &&& (#[trigger] members_of(keys, p)[k]) < keys.len()
            &&& keys[members_of(keys, p)[k] as int] == p
        } by {
            if k < rest.len() {
                assert(members_of(keys, p)[k] == rest[k]);
                assert(init[rest[k] as int] == keys[rest[k] as int]);
            }
        }
    }
}

/// Only buys and sells of assets that are not cash are trades: a deposit,
/// a withdrawal or a fee never is, and neither is anything done in cash.
pub proof fn lemma_trades_are_buys_and_sells<N>(tx: Transaction<N>)
    ensures
        is_trade_spec(tx) ==> tx.kind == TransactionKind::Buy || tx.kind == TransactionKind::Sell,
        is_trade_spec(tx) ==> tx.asset.kind != AssetKind::Cash,
        tx.kind == TransactionKind::Deposit || tx.kind == TransactionKind::Withdraw || tx.kind
            == TransactionKind::Fee ==> !is_trade_spec(tx),
        (tx.kind == TransactionKind::Buy || tx.kind == TransactionKind::Sell) && tx.asset.kind
            != AssetKind::Cash ==> is_trade_spec(tx),
{
}

} // verus!
