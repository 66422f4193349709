//! The periods over which the trades are counted: each calendar month and
//! each week (by its Sunday) from the first trade to today, with the
//! trades that fall in them.
use vstd::prelude::*;

use crate::history::{week_end, week_end_spec, weeks_from};
use crate::time::{civil_month, month_of_day, MAX_DAY, MIN_DAY};
use crate::trades::{
    buys_of, group_by_period, members_of, month_index, month_key, month_of_index, months_between,
    week_ends_between, PeriodTrades,
};

verus! {

/// `r` lists, in increasing order of key and each once, the periods of
/// `keys` and those of `periods`, each with the positions of its trades
/// and how many of them are buys (`is_buy`) and sells.
pub open spec fn is_grouping(
    r: Seq<PeriodTrades>,
    keys: Seq<i64>,
    is_buy: Seq<bool>,
    periods: Set<int>,
) -> bool {
    &&& forall|i: int, j: int| 0 <= i < j < r.len() ==> r[i].key < r[j].key
    &&& forall|p: i64|
        (exists|i: int| 0 <= i < r.len() && r[i].key == p) <==> (keys.contains(p) || periods.contains(
            p as int,
        ))
    &&& forall|i: int|
        0 <= i < r.len() ==> {
            &&& (#[trigger] r[i]).members@ == members_of(keys, r[i].key)
            &&& r[i].buys == buys_of(keys, is_buy, r[i].key)
            &&& r[i].sells == members_of(keys, r[i].key).len() - buys_of(keys, is_buy, r[i].key)
        }
}

/// An epoch day whose week, and the week after it, `chrono` represents.
pub open spec fn day_fits(day: int) -> bool {
    MIN_DAY <= day && day + 14 <= MAX_DAY
}

/// The key of the month of epoch day `day` (see [`month_index`]).
pub open spec fn month_key_of_day(day: int) -> int {
    month_index(civil_month(day).0, civil_month(day).1)
}

/// The earliest of a non-empty list of days.
pub open spec fn first_day(days: Seq<i64>) -> int
    decreases days.len(),
{
    if days.len() <= 1 {
        if days.len() == 1 {
            days[0] as int
        } else {
            0
        }
    } else {
        let rest = first_day(days.drop_last());
        if (days.last() as int) < rest {
            days.last() as int
        } else {
            rest
        }
    }
}

/// The month key of each day.
pub open spec fn month_keys(days: Seq<i64>) -> Seq<i64> {
    Seq::new(days.len(), |i: int| month_key_of_day(days[i] as int) as i64)
}

/// The week (its Sunday) of each day.
pub open spec fn week_keys(days: Seq<i64>) -> Seq<i64> {
    Seq::new(days.len(), |i: int| week_end_spec(days[i] as int) as i64)
}

/// The months from that of `first` to that of `today`.
pub open spec fn months_to_today(first: int, today: int) -> Set<int> {
    Set::new(|p: int| month_key_of_day(first) <= p <= month_key_of_day(today))
}

/// The weeks from that of `first` to that of `today`.
pub open spec fn weeks_to_today(first: int, today: int) -> Set<int> {
    Set::new(
        |p: int| weeks_from(week_end_spec(first), week_end_spec(today), Seq::<i64>::empty()).contains(p),
    )
}

proof fn lemma_month_index_round_trip(k: int)
    ensures
        month_index(month_of_index(k).0, month_of_index(k).1) == k,
{
    assert(k / 12 * 12 + k % 12 == k) by (nonlinear_arith);
}

/// The earliest of `days`, which are not empty.
fn earliest(days: &[i64]) -> (r: i64)
    requires
        days@.len() > 0,
    ensures
        r == first_day(days@),
        exists|k: int| 0 <= k < days@.len() && days@[k] == r,
{
    let mut m = days[0];
    let ghost mut at: int = 0;
    let mut i: usize = 1;
    proof {
        assert(days@.take(1).drop_last() =~= Seq::<i64>::empty());
    }
    while i < days.len()
        invariant
            1 <= i <= days@.len(),
            m == first_day(days@.take(i as int)),
            0 <= at < i,
            days@[at] == m,
        decreases days@.len() - i,
    {
        proof {
            assert(days@.take(i + 1).drop_last() =~= days@.take(i as int));
        }
        if days[i] < m {
            m = days[i];
            proof {
                at = i as int;
            }
        }
        i = i + 1;
    }
    proof {
        assert(days@.take(days@.len() as int) =~= days@);
    }
    m
}

/// Groups the trades, given by their epoch days and whether each is a
/// buy, by month and by week, the periods from the first trade to
/// `today` included even without a trade; no period at all without a
/// trade.
pub fn trade_periods(days: &[i64], is_buy: &[bool], today: i64) -> (r: (Vec<PeriodTrades>, Vec<PeriodTrades>))
    requires
        days@.len() == is_buy@.len(),
        forall|i: int| 0 <= i < days@.len() ==> day_fits(#[trigger] days@[i] as int),
        day_fits(today as int),
    ensures
        days@.len() == 0 ==> r.0@.len() == 0 && r.1@.len() == 0,
        days@.len() > 0 ==> is_grouping(
            r.0@,
            month_keys(days@),
            is_buy@,
            months_to_today(first_day(days@), today as int),
        ),
        days@.len() > 0 ==> is_grouping(
            r.1@,
            week_keys(days@),
            is_buy@,
            weeks_to_today(first_day(days@), today as int),
        ),
{
    if days.len() == 0 {
        return (Vec::new(), Vec::new());
    }
    let mut mkeys: Vec<i64> = Vec::new();
    let mut wkeys: Vec<i64> = Vec::new();
    let mut i: usize = 0;
    while i < days.len()
        invariant
            i <= days@.len(),
            forall|j: int| 0 <= j < days@.len() ==> day_fits(#[trigger] days@[j] as int),
            mkeys@.len() == i,
            wkeys@.len() == i,
            forall|j: int| 0 <= j < i ==> #[trigger] mkeys@[j] == month_key_of_day(days@[j] as int),
            forall|j: int| 0 <= j < i ==> #[trigger] wkeys@[j] == week_end_spec(days@[j] as int),
        decreases days@.len() - i,
    {
        let d = days[i];
        assert(day_fits(days@[i as int] as int));
        let ym = month_of_day(d);
        mkeys.push(month_key(ym));
        wkeys.push(week_end(d));
        i = i + 1;
    }
    proof {
        assert(mkeys@ =~= month_keys(days@));
        assert(wkeys@ =~= week_keys(days@));
    }
    let first = earliest(days);
    let first_month = month_of_day(first);
    let today_month = month_of_day(today);
    let months = months_between(first_month, today_month);
    let ghost start = month_index(first_month.0 as int, first_month.1 as int);
    let ghost end = month_index(today_month.0 as int, today_month.1 as int);
    let mut mfill: Vec<i64> = Vec::new();
    let mut k: usize = 0;
    while k < months.len()
        invariant
            k <= months@.len(),
            mfill@.len() == k,
            forall|j: int|
                0 <= j < months@.len() ==> (#[trigger] months@[j].0 as int, months@[j].1 as int)
                    == month_of_index(start + j),
            forall|j: int| 0 <= j < k ==> #[trigger] mfill@[j] == start + j,
        decreases months@.len() - k,
    {
        let ym = months[k];
        proof {
            lemma_month_index_round_trip(start + k);
            assert((ym.0 as int, ym.1 as int) == month_of_index(start + k));
            assert(0 <= (start + k) % 12 < 12);
        }
        mfill.push(month_key(ym));
        k = k + 1;
    }
    let wfill = week_ends_between(first, today);
    let by_month = group_by_period(mkeys.as_slice(), is_buy, mfill.as_slice());
    let by_week = group_by_period(wkeys.as_slice(), is_buy, wfill.as_slice());
    proof {
        let mset = months_to_today(first_day(days@), today as int);
        assert forall|p: i64| mfill@.contains(p) <==> mset.contains(p as int) by {
            if mfill@.contains(p) {
                let j = choose|j: int| 0 <= j < mfill@.len() && mfill@[j] == p;
                assert(mfill@[j] == start + j);
            }
            if mset.contains(p as int) {
                assert(mfill@[p - start] == p);
            }
        }
        let wseq = weeks_from(week_end_spec(first as int), week_end_spec(today as int), Seq::<i64>::empty());
        let wset = weeks_to_today(first_day(days@), today as int);
        assert forall|p: i64| wfill@.contains(p) <==> wset.contains(p as int) by {
            if wfill@.contains(p) {
                let j = choose|j: int| 0 <= j < wfill@.len() && wfill@[j] == p;
                assert(wfill@.map_values(|w: i64| w as int)[j] == p as int);
                assert(wseq[j] == p as int);
            }
            if wset.contains(p as int) {
                let j = choose|j: int| 0 <= j < wseq.len() && wseq[j] == p as int;
                assert(wfill@.map_values(|w: i64| w as int)[j] == p as int);
                assert(wfill@[j] == p);
            }
        }
    }
    (by_month, by_week)
}

} // verus!
