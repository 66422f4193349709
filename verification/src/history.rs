//! Weekly valuation history: weeks are identified by the Sunday that ends
//! them (ISO weeks, Monday to Sunday), and past weeks are immutable, so
//! only the complete weeks not yet recorded are computed.
//!
//! Computing a week's valuation and reading/writing the history file are
//! left to the caller, which asks this module which weeks to compute.
use vstd::prelude::*;

use crate::schema::Transaction;
use crate::time::{weekday_from_monday, MAX_DAY, MIN_DAY};

verus! {

/// The Sunday ending the week of epoch day `day`.
pub open spec fn week_end_spec(day: int) -> int {
    day + (6 - weekday_from_monday(day))
}

/// The Sunday that ends the ISO week (Monday to Sunday) containing epoch
/// day `date`. Dates after the last week that `chrono` can represent in
/// full are refused.
pub fn week_end(date: i64) -> (r: i64)
    requires
        MIN_DAY <= date,
        week_end_spec(date as int) <= MAX_DAY,
    ensures
        r == week_end_spec(date as int),
{
    let wd = match (date + 3).checked_rem_euclid(7) {
        Some(x) => x,
        None => 0,
    };
    date + (6 - wd)
}

/// The week end of a day is a Sunday, at most six days later, and is its
/// own week end; the next week ends seven days later.
pub proof fn lemma_week_end(day: int)
    ensures
        weekday_from_monday(week_end_spec(day)) == 6,
        day <= week_end_spec(day) <= day + 6,
        week_end_spec(week_end_spec(day)) == week_end_spec(day),
        week_end_spec(week_end_spec(day) + 1) == week_end_spec(day) + 7,
        forall|d: int| week_end_spec(day) - 6 <= d <= week_end_spec(day) ==> #[trigger] week_end_spec(d)
            == week_end_spec(day),
{
    let w = week_end_spec(day);
    assert(0 <= (day + 3) % 7 < 7) by (nonlinear_arith);
    assert((w + 3) % 7 == 6) by (nonlinear_arith)
        requires
            w == day + (6 - (day + 3) % 7),
    ;
    assert((w + 1 + 3) % 7 == 0) by (nonlinear_arith)
        requires
            (w + 3) % 7 == 6,
    ;
    assert forall|d: int| w - 6 <= d <= w implies #[trigger] week_end_spec(d) == w by {
        assert(d + (6 - (d + 3) % 7) == w) by (nonlinear_arith)
            requires
                (w + 3) % 7 == 6,
                w - 6 <= d <= w,
        ;
    }
}

/// `d` is the epoch day of the earliest transaction of `txs`.
pub open spec fn is_earliest_day<N>(txs: Seq<Transaction<N>>, d: int) -> bool {
    &&& exists|i: int| 0 <= i < txs.len() && txs[i].time.spec_day() == d
    &&& forall|i: int| 0 <= i < txs.len() ==> d <= #[trigger] txs[i].time.spec_day()
}

/// Epoch day of the earliest transaction (`None` when there is none).
pub fn earliest_tx_date<N>(txs: &[Transaction<N>]) -> (r: Option<i64>)
    ensures
        match r {
            Some(d) => is_earliest_day(txs@, d as int),
            None => txs@.len() == 0,
        },
{
    if txs.len() == 0 {
        return None;
    }
    let mut best = txs[0].time.day();
    let ghost mut at: int = 0;
    let mut i: usize = 1;
    while i < txs.len()
        invariant
            1 <= i <= txs@.len(),
            0 <= at < i,
            txs@[at].time.spec_day() == best,
            forall|j: int| 0 <= j < i ==> best <= #[trigger] txs@[j].time.spec_day(),
        decreases txs@.len() - i,
    {
        let d = txs[i].time.day();
        if d < best {
            best = d;
            proof {
                at = i as int;
            }
        }
        i = i + 1;
    }
    Some(best)
}

/// Sundays from `cursor` to `last`, a week apart, that are not in `done`,
/// in increasing order.
pub open spec fn weeks_from(cursor: int, last: int, done: Seq<i64>) -> Seq<int>
    decreases last - cursor + 7,
{
    if cursor > last {
        Seq::empty()
    } else {
        let rest = weeks_from(cursor + 7, last, done);
        if done.contains(cursor as i64) {
            rest
        } else {
            seq![cursor] + rest
        }
    }
}

/// The Sunday ending the last complete week before the week of `today`.
pub open spec fn last_complete_week_end(today: int) -> int {
    week_end_spec(today) - 7
}

/// The weeks to add to the history: every complete week from the week of
/// the first transaction (`start`) to the last complete week before
/// `today`, except those already recorded in `done`, in increasing order.
pub fn weeks_to_backfill(start: i64, today: i64, done: &[i64]) -> (r: Vec<i64>)
    requires
        MIN_DAY <= start,
        MIN_DAY <= today,
        week_end_spec(start as int) <= MAX_DAY,
        week_end_spec(today as int) <= MAX_DAY,
    ensures
        r@.map_values(|w: i64| w as int) == weeks_from(
            week_end_spec(start as int),
            last_complete_week_end(today as int),
            done@,
        ),
{
    let last = week_end(today) - 7;
    let mut cursor = week_end(start);
    let ghost first = cursor as int;
    let mut out: Vec<i64> = Vec::new();
    while cursor <= last
        invariant
            last == last_complete_week_end(today as int),
            last + 7 <= MAX_DAY,
            MIN_DAY <= cursor,
            out@.map_values(|w: i64| w as int) + weeks_from(cursor as int, last as int, done@) == weeks_from(
                first,
                last as int,
                done@,
            ),
        decreases last - cursor + 7,
    {
        let mut seen = false;
        let mut k: usize = 0;
        while k < done.len()
            invariant
                k <= done@.len(),
                seen == exists|j: int| 0 <= j < k && done@[j] == cursor,
            decreases done@.len() - k,
        {
            if done[k] == cursor {
                seen = true;
            }
            k = k + 1;
        }
        let ghost before = out@.map_values(|w: i64| w as int);
        if !seen {
            out.push(cursor);
            proof {
                assert(out@.map_values(|w: i64| w as int) =~= before.push(cursor as int));
                assert(!done@.contains(cursor));
                assert(before.push(cursor as int) + weeks_from(cursor + 7, last as int, done@) =~= before + (
                seq![cursor as int] + weeks_from(cursor + 7, last as int, done@)));
            }
        } else {
            proof {
                assert(done@.contains(cursor));
            }
        }
        cursor = cursor + 7;
    }
    out
}

/// Once every week that `weeks_from` lists is in `extra`, it lists none
/// with `extra` added to the weeks done.
proof fn lemma_weeks_from_covered(cursor: int, last: int, done: Seq<i64>, extra: Seq<i64>)
    requires
        forall|x: int| weeks_from(cursor, last, done).contains(x) ==> extra.contains(x as i64),
    ensures
        weeks_from(cursor, last, done + extra) == Seq::<int>::empty(),
    decreases last - cursor + 7,
{
    if cursor <= last {
        let rest = weeks_from(cursor + 7, last, done);
        assert forall|x: int| rest.contains(x) implies extra.contains(x as i64) by {
            let i = choose|i: int| 0 <= i < rest.len() && rest[i] == x;
            if !done.contains(cursor as i64) {
                assert(weeks_from(cursor, last, done)[i + 1] == x);
            } else {
                assert(weeks_from(cursor, last, done)[i] == x);
            }
            assert(weeks_from(cursor, last, done).contains(x));
        }
        lemma_weeks_from_covered(cursor + 7, last, done, extra);
        if done.contains(cursor as i64) {
            let j = choose|j: int| 0 <= j < done.len() && done[j] == cursor as i64;
            assert((done + extra)[j] == cursor as i64);
        } else {
            assert(weeks_from(cursor, last, done)[0] == cursor);
            assert(weeks_from(cursor, last, done).contains(cursor));
            assert(extra.contains(cursor as i64));
            let j = choose|j: int| 0 <= j < extra.len() && extra[j] == cursor as i64;
            assert((done + extra)[done.len() + j] == cursor as i64);
        }
    }
}

/// Backfilling can be run again safely: once the weeks that
/// [`weeks_to_backfill`] lists (`added`) are recorded beside those
/// already done, it lists no week.
pub proof fn lemma_backfill_is_idempotent(start: int, today: int, done: Seq<i64>, added: Seq<i64>)
    requires
        added.map_values(|w: i64| w as int) == weeks_from(week_end_spec(start), last_complete_week_end(today), done),
    ensures
        weeks_from(week_end_spec(start), last_complete_week_end(today), done + added) == Seq::<int>::empty(),
{
    let listed = weeks_from(week_end_spec(start), last_complete_week_end(today), done);
    assert forall|x: int| listed.contains(x) implies added.contains(x as i64) by {
        let i = choose|i: int| 0 <= i < listed.len() && listed[i] == x;
        assert(added.map_values(|w: i64| w as int)[i] == added[i] as int);
        assert(added[i] == x as i64);
    }
    lemma_weeks_from_covered(week_end_spec(start), last_complete_week_end(today), done, added);
}

} // verus!
