//! Replaying the transaction log: the direction in which each kind of
//! transaction moves a holding, and the chronological order in which the
//! log is replayed up to a given instant.
//!
//! Holdings are never stored, only recomputed by replaying the log in
//! this order; the summing of quantities is left to the caller.
use vstd::prelude::*;

use crate::schema::{Transaction, TransactionKind};
use crate::time::Timestamp;

verus! {

pub open spec fn sign_spec(kind: TransactionKind) -> int {
    match kind {
        TransactionKind::Buy => 1,
        TransactionKind::Deposit => 1,
        TransactionKind::Sell => -1,
        TransactionKind::Withdraw => -1,
        TransactionKind::Fee => -1,
    }
}

/// Direction of a transaction on its asset's holding: +1 for what comes
/// in (buy, deposit), -1 for what goes out (sell, withdraw, fee).
pub fn sign(kind: TransactionKind) -> (r: i8)
    ensures
        r == sign_spec(kind),
{
    match kind {
        TransactionKind::Buy => 1,
        TransactionKind::Deposit => 1,
        TransactionKind::Sell => -1,
        TransactionKind::Withdraw => -1,
        TransactionKind::Fee => -1,
    }
}

/// Transaction `i` takes part in a replay up to `at` (`None`: all of
/// them).
pub open spec fn replayed<N>(txs: Seq<Transaction<N>>, at: Option<Timestamp>, i: int) -> bool {
    &&& 0 <= i < txs.len()
    &&& match at {
        Some(t) => txs[i].time.at_or_before(t),
        None => true,
    }
}

/// Replay order: by time, and in log order among transactions at the same
/// instant (a stable sort by time).
pub open spec fn replays_before<N>(txs: Seq<Transaction<N>>, i: int, j: int) -> bool {
    ||| !txs[j].time.at_or_before(txs[i].time)
    ||| (txs[i].time == txs[j].time && i < j)
}

/// `order` lists exactly the transactions replayed up to `at`, each once,
/// in replay order.
pub open spec fn is_replay_order<N>(txs: Seq<Transaction<N>>, at: Option<Timestamp>, order: Seq<
    usize,
>) -> bool {
    &&& forall|k: int| 0 <= k < order.len() ==> replayed(txs, at, #[trigger] order[k] as int)
    &&& forall|i: int| replayed(txs, at, i) ==> exists|k: int| 0 <= k < order.len() && #[trigger] order[k] == i
    &&& forall|a: int, b: int|
        0 <= a < b < order.len() ==> replays_before(txs, #[trigger] order[a] as int, #[trigger] order[b] as int)
}

fn at_or_before(a: &Timestamp, b: &Timestamp) -> (r: bool)
    ensures
        r == a.at_or_before(*b),
{
    !a.is_after(b)
}

/// Indices of the transactions of `txs` at or before `at` (all of them
/// when `at` is `None`), in replay order: chronological, and in log order
/// among transactions at the same instant.
pub fn replay_order<N>(txs: &[Transaction<N>], at: Option<Timestamp>) -> (r: Vec<usize>)
    ensures
        is_replay_order(txs@, at, r@),
{
    let mut order: Vec<usize> = Vec::new();
    let mut i: usize = 0;
    while i < txs.len()
        invariant
            i <= txs@.len(),
            forall|k: int| 0 <= k < order@.len() ==> #[trigger] order@[k] < i && replayed(txs@, at, order@[k] as int),
            forall|j: int| 0 <= j < i && replayed(txs@, at, j) ==> exists|k: int|
                0 <= k < order@.len() && #[trigger] order@[k] == j,
            forall|a: int, b: int|
                0 <= a < b < order@.len() ==> replays_before(
                    txs@,
                    #[trigger] order@[a] as int,
                    #[trigger] order@[b] as int,
                ),
        decreases txs@.len() - i,
    {
        let t = txs[i].time;
        let take = match &at {
            Some(limit) => at_or_before(&t, limit),
            None => true,
        };
        if take {
            // first position whose transaction is strictly after `t`
            let mut lo: usize = 0;
            let mut hi: usize = order.len();
            while lo < hi
                invariant
                    lo <= hi <= order@.len(),
                    forall|k: int| 0 <= k < order@.len() ==> #[trigger] order@[k] < txs@.len(),
                    forall|k: int| 0 <= k < lo ==> txs@[order@[k] as int].time.at_or_before(t),
                    forall|k: int| hi <= k < order@.len() ==> !txs@[order@[k] as int].time.at_or_before(t),
                    forall|a: int, b: int|
                        0 <= a < b < order@.len() ==> replays_before(
                            txs@,
                            #[trigger] order@[a] as int,
                            #[trigger] order@[b] as int,
                        ),
                    t == txs@[i as int].time,
                decreases hi - lo,
            {
                let mid = lo + (hi - lo) / 2;
                let tm = txs[order[mid]].time;
                if at_or_before(&tm, &t) {
                    proof {
                        assert forall|k: int| 0 <= k <= mid implies txs@[order@[k] as int].time.at_or_before(t) by {
                            if k < mid {
                                assert(replays_before(txs@, order@[k] as int, order@[mid as int] as int));
                            }
                        }
                    }
                    lo = mid + 1;
                } else {
                    proof {
                        assert forall|k: int| mid <= k < order@.len() implies !txs@[order@[k] as int].time.at_or_before(t) by {
                            if k > mid {
                                assert(replays_before(txs@, order@[mid as int] as int, order@[k] as int));
                            }
                        }
                    }
                    hi = mid;
                }
            }
            let ghost old_order = order@;
            order.insert(lo, i);
            proof {
                let o = order@;
                assert(o == old_order.insert(lo as int, i));
                assert forall|a: int, b: int| 0 <= a < b < o.len() implies replays_before(
                    txs@,
                    #[trigger] o[a] as int,
                    #[trigger] o[b] as int,
                ) by {
                    if b < lo {
                        assert(o[a] == old_order[a] && o[b] == old_order[b]);
                    } else if b == lo {
                        assert(o[a] == old_order[a]);
                        assert(old_order[a] < i);
                    } else if a < lo {
                        assert(o[a] == old_order[a] && o[b] == old_order[b - 1]);
                    } else if a == lo {
                        assert(o[b] == old_order[b - 1]);
                    } else {
                        assert(o[a] == old_order[a - 1] && o[b] == old_order[b - 1]);
                    }
                }
                assert forall|k: int| 0 <= k < o.len() implies #[trigger] o[k] < i + 1 && replayed(txs@, at, o[k] as int) by {
                    if k < lo {
                        assert(o[k] == old_order[k]);
                    } else if k > lo {
                        assert(o[k] == old_order[k - 1]);
                    }
                }
                assert forall|j: int| 0 <= j < i + 1 && replayed(txs@, at, j) implies exists|k: int|
                    0 <= k < o.len() && #[trigger] o[k] == j by {
                    if j == i {
                        assert(o[lo as int] == j);
                    } else {
                        let k = choose|k: int| 0 <= k < old_order.len() && old_order[k] == j;
                        if k < lo {
                            assert(o[k] == j);
                        } else {
                            assert(o[k + 1] == j);
                        }
                    }
                }
            }
        } else {
            proof {
                assert forall|j: int| 0 <= j < i + 1 && replayed(txs@, at, j) implies exists|k: int|
                    0 <= k < order@.len() && #[trigger] order@[k] == j by {
                    if j == i {
                        assert(false);
                    }
                }
            }
        }
        i = i + 1;
    }
    order
}

/// Replay order is a strict order: never both ways, never from a
/// transaction to itself.
proof fn lemma_replays_before_asymmetric<N>(txs: Seq<Transaction<N>>, i: int, j: int)
    ensures
        !(replays_before(txs, i, j) && replays_before(txs, j, i)),
        !replays_before(txs, i, i),
{
}

/// Two replay orders agree on their first `p` positions.
proof fn lemma_replay_orders_agree<N>(txs: Seq<Transaction<N>>, at: Option<Timestamp>, a: Seq<usize>, b: Seq<usize>, p: int)
    requires
        is_replay_order(txs, at, a),
        is_replay_order(txs, at, b),
        0 <= p <= a.len(),
        p <= b.len(),
    ensures
        forall|q: int| 0 <= q < p ==> a[q] == b[q],
    decreases p,
{
    if p > 0 {
        let n = p - 1;
        lemma_replay_orders_agree(txs, at, a, b, n);
        assert(replayed(txs, at, a[n] as int));
        assert(replayed(txs, at, b[n] as int));
        let qb = choose|k: int| 0 <= k < b.len() && #[trigger] b[k] == a[n] as int;
        let ra = choose|k: int| 0 <= k < a.len() && #[trigger] a[k] == b[n] as int;
        if qb < n {
            assert(a[qb] == b[qb]);
            assert(replays_before(txs, a[qb] as int, a[n] as int));
            lemma_replays_before_asymmetric(txs, a[n] as int, a[n] as int);
        }
        if ra < n {
            assert(b[ra] == a[ra]);
            assert(replays_before(txs, b[ra] as int, b[n] as int));
            lemma_replays_before_asymmetric(txs, b[n] as int, b[n] as int);
        }
        if qb != n && ra != n {
            assert(replays_before(txs, a[n] as int, a[ra] as int));
            assert(replays_before(txs, b[n] as int, b[qb] as int));
            lemma_replays_before_asymmetric(txs, a[n] as int, b[n] as int);
        }
    }
}

/// There is only one replay order: the order [`replay_order`] returns is
/// determined by the log and the instant.
pub proof fn lemma_replay_order_unique<N>(txs: Seq<Transaction<N>>, at: Option<Timestamp>, a: Seq<usize>, b: Seq<usize>)
    requires
        is_replay_order(txs, at, a),
        is_replay_order(txs, at, b),
    ensures
        a == b,
{
    if a.len() <= b.len() {
        lemma_replay_orders_agree(txs, at, a, b, a.len() as int);
    } else {
        lemma_replay_orders_agree(txs, at, a, b, b.len() as int);
    }
    if a.len() < b.len() {
        let n = a.len() as int;
        assert(replayed(txs, at, b[n] as int));
        let r = choose|k: int| 0 <= k < a.len() && #[trigger] a[k] == b[n] as int;
        assert(b[r] == a[r]);
        assert(replays_before(txs, b[r] as int, b[n] as int));
        lemma_replays_before_asymmetric(txs, b[n] as int, b[n] as int);
    }
    if b.len() < a.len() {
        let n = b.len() as int;
        assert(replayed(txs, at, a[n] as int));
        let r = choose|k: int| 0 <= k < b.len() && #[trigger] b[k] == a[n] as int;
        assert(a[r] == b[r]);
        assert(replays_before(txs, a[r] as int, a[n] as int));
        lemma_replays_before_asymmetric(txs, a[n] as int, a[n] as int);
    }
    assert(a =~= b);
}

/// In a full replay, the transactions at or before `t` come first.
proof fn lemma_split_point<N>(txs: Seq<Transaction<N>>, full: Seq<usize>, t: Timestamp) -> (m: int)
    requires
        forall|k: int| 0 <= k < full.len() ==> #[trigger] full[k] < txs.len(),
        forall|a: int, b: int|
            0 <= a < b < full.len() ==> replays_before(txs, #[trigger] full[a] as int, #[trigger] full[b] as int),
    ensures
        0 <= m <= full.len(),
        forall|p: int| 0 <= p < m ==> txs[#[trigger] full[p] as int].time.at_or_before(t),
        forall|p: int| m <= p < full.len() ==> !txs[#[trigger] full[p] as int].time.at_or_before(t),
    decreases full.len(),
{
    if full.len() == 0 {
        0
    } else {
        let last = full.len() - 1;
        if txs[full[last] as int].time.at_or_before(t) {
            assert forall|p: int| 0 <= p < full.len() implies txs[#[trigger] full[p] as int].time.at_or_before(t) by {
                if p < last {
                    assert(replays_before(txs, full[p] as int, full[last] as int));
                }
            }
            full.len() as int
        } else {
            let rest = full.drop_last();
            assert forall|a: int, b: int| 0 <= a < b < rest.len() implies replays_before(
                txs,
                #[trigger] rest[a] as int,
                #[trigger] rest[b] as int,
            ) by {
                assert(rest[a] == full[a] && rest[b] == full[b]);
            }
            let m = lemma_split_point(txs, rest, t);
            assert forall|p: int| m <= p < full.len() implies !txs[#[trigger] full[p] as int].time.at_or_before(t) by {
                if p < last {
                    assert(rest[p] == full[p]);
                }
            }
            assert forall|p: int| 0 <= p < m implies txs[#[trigger] full[p] as int].time.at_or_before(t) by {
                assert(rest[p] == full[p]);
            }
            m
        }
    }
}

/// The replay up to an instant is the beginning of the full replay: the
/// transactions at or before that instant, in the same order. So what is
/// held at an instant is what the full replay holds once it has passed
/// that instant.
pub proof fn lemma_replay_until_is_prefix<N>(txs: Seq<Transaction<N>>, t: Timestamp, full: Seq<usize>, cut: Seq<usize>)
    requires
        is_replay_order(txs, None, full),
        is_replay_order(txs, Some(t), cut),
    ensures
        cut.len() <= full.len(),
        cut == full.take(cut.len() as int),
{
    assert forall|k: int| 0 <= k < full.len() implies #[trigger] full[k] < txs.len() by {
        assert(replayed(txs, None, full[k] as int));
    }
    let m = lemma_split_point(txs, full, t);
    let head = full.take(m);
    assert forall|k: int| 0 <= k < head.len() implies replayed(txs, Some(t), #[trigger] head[k] as int) by {
        assert(head[k] == full[k]);
    }
    assert forall|i: int| replayed(txs, Some(t), i) implies exists|k: int| 0 <= k < head.len() && #[trigger] head[k] == i by {
        assert(replayed(txs, None, i));
        let k = choose|k: int| 0 <= k < full.len() && #[trigger] full[k] == i;
        assert(k < m);
        assert(head[k] == i);
    }
    assert forall|a: int, b: int| 0 <= a < b < head.len() implies replays_before(
        txs,
        #[trigger] head[a] as int,
        #[trigger] head[b] as int,
    ) by {
        assert(head[a] == full[a] && head[b] == full[b]);
    }
    lemma_replay_order_unique(txs, Some(t), head, cut);
}

} // verus!
