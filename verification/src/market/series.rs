//! Time series of cached prices: points `(timestamp, value)` kept in a
//! vector strictly increasing by timestamp, read as a map from timestamp
//! to value.
use vstd::prelude::*;

verus! {

/// Timestamps strictly increase along `pts` (hence are distinct).
pub open spec fn strictly_sorted<V>(pts: Seq<(i64, V)>) -> bool {
    forall|i: int, j: int| 0 <= i < j < pts.len() ==> pts[i].0 < pts[j].0
}

/// Some point of `pts` is at timestamp `k`.
pub open spec fn has_key<V>(pts: Seq<(i64, V)>, k: i64) -> bool {
    exists|i: int| 0 <= i < pts.len() && pts[i].0 == k
}

/// The points of `pts` as a map from timestamp to value.
pub open spec fn points_map<V>(pts: Seq<(i64, V)>) -> Map<i64, V> {
    Map::new(
        |k: i64| has_key(pts, k),
        |k: i64| pts[choose|i: int| 0 <= i < pts.len() && pts[i].0 == k].1,
    )
}

/// The value stored at `k`, if any.
pub open spec fn lookup<V>(m: Map<i64, V>, k: i64) -> Option<V> {
    if m.contains_key(k) {
        Some(m[k])
    } else {
        None
    }
}

/// `k` is the latest timestamp of `m` that is at or before `ts`.
pub open spec fn is_latest_at_or_before<V>(m: Map<i64, V>, ts: int, k: i64) -> bool {
    &&& m.contains_key(k)
    &&& k <= ts
    &&& forall|k2: i64| m.contains_key(k2) && k2 <= ts ==> k2 <= k
}

/// The latest timestamp of `m` at or before `ts`; `None` when every
/// timestamp of `m` is after `ts`.
pub open spec fn latest_at_or_before<V>(m: Map<i64, V>, ts: int) -> Option<i64> {
    if exists|k: i64| is_latest_at_or_before(m, ts, k) {
        Some(choose|k: i64| is_latest_at_or_before(m, ts, k))
    } else {
        None
    }
}

/// `k` is the earliest timestamp of `m`.
pub open spec fn is_earliest<V>(m: Map<i64, V>, k: i64) -> bool {
    &&& m.contains_key(k)
    &&& forall|k2: i64| m.contains_key(k2) ==> k <= k2
}

/// The earliest timestamp of `m`, `None` when `m` is empty.
pub open spec fn earliest_key<V>(m: Map<i64, V>) -> Option<i64> {
    if exists|k: i64| is_earliest(m, k) {
        Some(choose|k: i64| is_earliest(m, k))
    } else {
        None
    }
}

/// The latest timestamp of `m`, `None` when `m` is empty.
pub open spec fn latest_key<V>(m: Map<i64, V>) -> Option<i64> {
    latest_at_or_before(m, i64::MAX as int)
}

/// The points of `m` at or after `since`.
pub open spec fn since<V>(m: Map<i64, V>, since: int) -> Map<i64, V> {
    Map::new(|k: i64| m.contains_key(k) && k >= since, |k: i64| m[k])
}

/// The value of `points_map` at the timestamp of point `i`.
pub proof fn lemma_points_map_at<V>(pts: Seq<(i64, V)>, i: int)
    requires
        strictly_sorted(pts),
        0 <= i < pts.len(),
    ensures
        points_map(pts).contains_key(pts[i].0),
        points_map(pts)[pts[i].0] == pts[i].1,
{
    let k = pts[i].0;
    assert(has_key(pts, k));
    let j = choose|j: int| 0 <= j < pts.len() && pts[j].0 == k;
    if j < i {
        assert(pts[j].0 < pts[i].0);
    } else if j > i {
        assert(pts[i].0 < pts[j].0);
    }
}

/// A key of `points_map` is the timestamp of some point.
pub proof fn lemma_points_map_key<V>(pts: Seq<(i64, V)>, k: i64) -> (i: int)
    requires
        strictly_sorted(pts),
        points_map(pts).contains_key(k),
    ensures
        0 <= i < pts.len(),
        pts[i].0 == k,
        points_map(pts)[k] == pts[i].1,
{
    let i = choose|i: int| 0 <= i < pts.len() && pts[i].0 == k;
    lemma_points_map_at(pts, i);
    i
}

/// Index of the first point at or after `ts` (the length when none is).
pub fn lower_bound<V>(pts: &Vec<(i64, V)>, ts: i64) -> (r: usize)
    requires
        strictly_sorted(pts@),
    ensures
        r <= pts@.len(),
        forall|i: int| 0 <= i < r ==> pts@[i].0 < ts,
        forall|i: int| r <= i < pts@.len() ==> pts@[i].0 >= ts,
{
    let mut lo: usize = 0;
    let mut hi: usize = pts.len();
    while lo < hi
        invariant
            lo <= hi <= pts@.len(),
            strictly_sorted(pts@),
            forall|i: int| 0 <= i < lo ==> pts@[i].0 < ts,
            forall|i: int| hi <= i < pts@.len() ==> pts@[i].0 >= ts,
        decreases hi - lo,
    {
        let mid = lo + (hi - lo) / 2;
        if pts[mid].0 < ts {
            lo = mid + 1;
        } else {
            hi = mid;
        }
    }
    lo
}

/// Index of the first point strictly after `ts` (the length when none is).
pub fn upper_bound<V>(pts: &Vec<(i64, V)>, ts: i64) -> (r: usize)
    requires
        strictly_sorted(pts@),
    ensures
        r <= pts@.len(),
        forall|i: int| 0 <= i < r ==> pts@[i].0 <= ts,
        forall|i: int| r <= i < pts@.len() ==> pts@[i].0 > ts,
{
    let mut lo: usize = 0;
    let mut hi: usize = pts.len();
    while lo < hi
        invariant
            lo <= hi <= pts@.len(),
            strictly_sorted(pts@),
            forall|i: int| 0 <= i < lo ==> pts@[i].0 <= ts,
            forall|i: int| hi <= i < pts@.len() ==> pts@[i].0 > ts,
        decreases hi - lo,
    {
        let mid = lo + (hi - lo) / 2;
        if pts[mid].0 <= ts {
            lo = mid + 1;
        } else {
            hi = mid;
        }
    }
    lo
}

/// The value stored at exactly `ts`.
pub fn value_at<V: Copy>(pts: &Vec<(i64, V)>, ts: i64) -> (r: Option<V>)
    requires
        strictly_sorted(pts@),
    ensures
        r == lookup(points_map(pts@), ts),
{
    let i = lower_bound(pts, ts);
    if i < pts.len() && pts[i].0 == ts {
        proof {
            lemma_points_map_at(pts@, i as int);
        }
        Some(pts[i].1)
    } else {
        proof {
            if points_map(pts@).contains_key(ts) {
                let j = lemma_points_map_key(pts@, ts);
                if j < i {
                } else if j > i {
                    assert(pts@[i as int].0 < pts@[j].0);
                }
            }
        }
        None
    }
}

/// The value of the latest point at or before `ts`.
pub fn value_at_or_before<V: Copy>(pts: &Vec<(i64, V)>, ts: i64) -> (r: Option<V>)
    requires
        strictly_sorted(pts@),
    ensures
        r == match latest_at_or_before(points_map(pts@), ts as int) {
            Some(k) => Some(points_map(pts@)[k]),
            None => None,
        },
{
    let ghost m = points_map(pts@);
    let i = upper_bound(pts, ts);
    if i == 0 {
        proof {
            assert forall|k: i64| !is_latest_at_or_before(m, ts as int, k) by {
                if m.contains_key(k) && k <= ts {
                    let j = lemma_points_map_key(pts@, k);
                }
            }
        }
        None
    } else {
        let ghost k = pts@[i - 1].0;
        proof {
            lemma_points_map_at(pts@, i - 1);
            assert forall|k2: i64| m.contains_key(k2) && k2 <= ts implies k2 <= k by {
                let j = lemma_points_map_key(pts@, k2);
                if j > i - 1 {
                    if j >= i {
                    }
                }
            }
            assert(is_latest_at_or_before(m, ts as int, k));
            let c = choose|c: i64| is_latest_at_or_before(m, ts as int, c);
            assert(c <= k && k <= c);
        }
        Some(pts[i - 1].1)
    }
}

/// Timestamp of the earliest point.
pub fn first_key<V>(pts: &Vec<(i64, V)>) -> (r: Option<i64>)
    requires
        strictly_sorted(pts@),
    ensures
        r == earliest_key(points_map(pts@)),
{
    let ghost m = points_map(pts@);
    if pts.len() == 0 {
        proof {
            assert forall|k: i64| !is_earliest(m, k) by {
                if m.contains_key(k) {
                    let j = lemma_points_map_key(pts@, k);
                }
            }
        }
        None
    } else {
        let ghost k = pts@[0].0;
        proof {
            lemma_points_map_at(pts@, 0);
            assert forall|k2: i64| m.contains_key(k2) implies k <= k2 by {
                let j = lemma_points_map_key(pts@, k2);
                if j > 0 {
                }
            }
            assert(is_earliest(m, k));
            let c = choose|c: i64| is_earliest(m, c);
            assert(c <= k && k <= c);
        }
        Some(pts[0].0)
    }
}

/// Timestamp of the latest point.
pub fn last_key<V>(pts: &Vec<(i64, V)>) -> (r: Option<i64>)
    requires
        strictly_sorted(pts@),
    ensures
        r == latest_key(points_map(pts@)),
{
    let ghost m = points_map(pts@);
    let n = pts.len();
    if n == 0 {
        proof {
            assert forall|k: i64| !is_latest_at_or_before(m, i64::MAX as int, k) by {
                if m.contains_key(k) {
                    let j = lemma_points_map_key(pts@, k);
                }
            }
        }
        None
    } else {
        let ghost k = pts@[n - 1].0;
        proof {
            lemma_points_map_at(pts@, n - 1);
            assert forall|k2: i64| m.contains_key(k2) && k2 <= i64::MAX implies k2 <= k by {
                let j = lemma_points_map_key(pts@, k2);
                if j < n - 1 {
                }
            }
            assert(is_latest_at_or_before(m, i64::MAX as int, k));
            let c = choose|c: i64| is_latest_at_or_before(m, i64::MAX as int, c);
            assert(c <= k && k <= c);
        }
        Some(pts[n - 1].0)
    }
}

/// The points at or after `since`, in increasing order of timestamp.
pub fn points_since<V: Copy>(pts: &Vec<(i64, V)>, since_ts: i64) -> (r: Vec<(i64, V)>)
    requires
        strictly_sorted(pts@),
    ensures
        strictly_sorted(r@),
        points_map(r@) == since(points_map(pts@), since_ts as int),
{
    let start = lower_bound(pts, since_ts);
    let mut out: Vec<(i64, V)> = Vec::new();
    let mut i = start;
    while i < pts.len()
        invariant
            start <= i <= pts@.len(),
            strictly_sorted(pts@),
            out@ == pts@.subrange(start as int, i as int),
        decreases pts@.len() - i,
    {
        out.push(pts[i]);
        i = i + 1;
    }
    proof {
        let sub = pts@.subrange(start as int, pts@.len() as int);
        assert(out@ == sub);
        assert(strictly_sorted(sub));
        let m = points_map(pts@);
        let target = since(m, since_ts as int);
        assert forall|k: i64| #[trigger] points_map(sub).contains_key(k) == target.contains_key(k) by {
            if points_map(sub).contains_key(k) {
                let j = lemma_points_map_key(sub, k);
                lemma_points_map_at(pts@, start + j);
            }
            if target.contains_key(k) {
                let j = lemma_points_map_key(pts@, k);
                assert(sub[j - start].0 == k);
                assert(has_key(sub, k));
            }
        }
        assert forall|k: i64| points_map(sub).contains_key(k) implies #[trigger] points_map(sub)[k]
            == target[k] by {
            let j = lemma_points_map_key(sub, k);
            lemma_points_map_at(pts@, start + j);
        }
        assert(points_map(sub) =~= target);
    }
    out
}

/// Stores `v` at `ts`, replacing the value already there.
pub fn put<V>(pts: &mut Vec<(i64, V)>, ts: i64, v: V)
    requires
        strictly_sorted(old(pts)@),
    ensures
        strictly_sorted(final(pts)@),
        points_map(final(pts)@) == points_map(old(pts)@).insert(ts, v),
{
    let ghost old_pts = pts@;
    let i = lower_bound(pts, ts);
    if i < pts.len() && pts[i].0 == ts {
        pts.set(i, (ts, v));
        proof {
            let new_pts = pts@;
            assert(new_pts == old_pts.update(i as int, (ts, v)));
            assert(strictly_sorted(new_pts));
            let target = points_map(old_pts).insert(ts, v);
            assert forall|k: i64| #[trigger] points_map(new_pts).contains_key(k) == target.contains_key(k) by {
                if points_map(new_pts).contains_key(k) {
                    let j = lemma_points_map_key(new_pts, k);
                    if j != i {
                        lemma_points_map_at(old_pts, j);
                    }
                }
                if target.contains_key(k) && k != ts {
                    let j = lemma_points_map_key(old_pts, k);
                    assert(new_pts[j].0 == k);
                    assert(has_key(new_pts, k));
                }
                if k == ts {
                    assert(new_pts[i as int].0 == ts);
                    assert(has_key(new_pts, k));
                }
            }
            assert forall|k: i64| points_map(new_pts).contains_key(k) implies #[trigger] points_map(new_pts)[k]
                == target[k] by {
                let j = lemma_points_map_key(new_pts, k);
                if j != i {
                    lemma_points_map_at(old_pts, j);
                }
            }
            assert(points_map(new_pts) =~= target);
        }
    } else {
        pts.insert(i, (ts, v));
        proof {
            let new_pts = pts@;
            assert(new_pts == old_pts.insert(i as int, (ts, v)));
            assert forall|a: int, b: int| 0 <= a < b < new_pts.len() implies new_pts[a].0 < new_pts[b].0 by {
                if b < i {
                } else if b == i {
                } else if a < i {
                    assert(new_pts[b] == old_pts[b - 1]);
                } else if a == i {
                    assert(new_pts[b] == old_pts[b - 1]);
                    assert(old_pts[b - 1].0 >= ts);
                    if old_pts[b - 1].0 == ts {
                        if b - 1 > i {
                            assert(old_pts[i as int].0 < old_pts[b - 1].0);
                        }
                    }
                } else {
                    assert(new_pts[b] == old_pts[b - 1]);
                    assert(new_pts[a] == old_pts[a - 1]);
                }
            }
            assert(strictly_sorted(new_pts));
            let target = points_map(old_pts).insert(ts, v);
            assert forall|k: i64| #[trigger] points_map(new_pts).contains_key(k) == target.contains_key(k) by {
                if points_map(new_pts).contains_key(k) {
                    let j = lemma_points_map_key(new_pts, k);
                    if j < i {
                        lemma_points_map_at(old_pts, j);
                    } else if j > i {
                        lemma_points_map_at(old_pts, j - 1);
                    }
                }
                if target.contains_key(k) && k != ts {
                    let j = lemma_points_map_key(old_pts, k);
                    if j < i {
                        assert(new_pts[j].0 == k);
                    } else {
                        assert(new_pts[j + 1].0 == k);
                    }
                    assert(has_key(new_pts, k));
                }
                if k == ts {
                    assert(new_pts[i as int].0 == ts);
                    assert(has_key(new_pts, k));
                }
            }
            assert forall|k: i64| points_map(new_pts).contains_key(k) implies #[trigger] points_map(new_pts)[k]
                == target[k] by {
                let j = lemma_points_map_key(new_pts, k);
                if j < i {
                    lemma_points_map_at(old_pts, j);
                } else if j > i {
                    lemma_points_map_at(old_pts, j - 1);
                }
            }
            assert(points_map(new_pts) =~= target);
        }
    }
}

} // verus!
