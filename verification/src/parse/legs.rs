//! Which transactions a row of the Binance exports gives, and in what
//! order: transactions already known (by their external identifier) are
//! reused rather than made again.
use vstd::prelude::*;

use crate::parse::binance_rows::{ConvertRow, ConvertRowView, TradeRow, TradeRowView};
use crate::schema::{opt_view, Transaction};

verus! {

/// Position of the first transaction of `known` whose external
/// identifier is `id`.
pub open spec fn known_index<N>(known: Seq<Transaction<N>>, id: Seq<char>) -> Option<int> {
    if exists|i: int| 0 <= i < known.len() && opt_view(known[i].external_id) == Some(id) {
        Some(
            choose|i: int|
                0 <= i < known.len() && opt_view(known[i].external_id) == Some(id) && forall|j: int|
                    0 <= j < i ==> opt_view(known[j].external_id) != Some(id),
        )
    } else {
        None
    }
}

/// See [`known_index`].
pub fn find_known<N>(known: &[Transaction<N>], id: &str) -> (r: Option<usize>)
    ensures
        match r {
            Some(i) => known_index(known@, id@) == Some(i as int),
            None => known_index(known@, id@) is None,
        },
{
    let mut i: usize = 0;
    while i < known.len()
        invariant
            i <= known@.len(),
            forall|j: int| 0 <= j < i ==> opt_view(known@[j].external_id) != Some(id@),
        decreases known@.len() - i,
    {
        let hit = match &known[i].external_id {
            Some(e) => crate::text::text_eq(e.as_str(), id),
            None => false,
        };
        if hit {
            proof {
                assert(opt_view(known@[i as int].external_id) == Some(id@));
                let w = choose|w: int|
                    0 <= w < known@.len() && opt_view(known@[w].external_id) == Some(id@) && forall|j: int|
                        0 <= j < w ==> opt_view(known@[j].external_id) != Some(id@);
                assert(w == i) by {
                    if w < i {
                    } else if w > i {
                    }
                }
            }
            return Some(i);
        }
        i = i + 1;
    }
    None
}

/// How one transaction of a row is obtained: the known transaction at
/// this position of the known ones is reused, or a new one is made.
#[derive(Debug, Clone, Copy, PartialEq, Eq, Structural)]
pub enum Leg {
    Reuse(usize),
    Make,
}

/// The part of a trade row a transaction stands for.
#[derive(Debug, Clone, Copy, PartialEq, Eq, Structural)]
pub enum TradePart {
    Trade,
    Fee,
}

pub open spec fn leg_for(i: Option<int>) -> Leg {
    match i {
        Some(k) => Leg::Reuse(k as usize),
        None => Leg::Make,
    }
}

/// The transactions of a trade row, in order: a trade already known is
/// reused and the row gives nothing more; otherwise the trade is made,
/// followed, when a fee was charged (`has_fee`), by its fee, reused when
/// known.
pub open spec fn trade_plan_spec<N>(known: Seq<Transaction<N>>, t: TradeRowView, has_fee: bool) -> Seq<
    (TradePart, Leg),
> {
    match known_index(known, t.trade_id) {
        Some(i) => seq![(TradePart::Trade, Leg::Reuse(i as usize))],
        None => if has_fee {
            seq![(TradePart::Trade, Leg::Make), (TradePart::Fee, leg_for(known_index(known, t.fee_id)))]
        } else {
            seq![(TradePart::Trade, Leg::Make)]
        },
    }
}

/// See [`trade_plan_spec`].
pub fn plan_trade<N>(t: &TradeRow, known: &[Transaction<N>], has_fee: bool) -> (r: Vec<(TradePart, Leg)>)
    ensures
        r@ == trade_plan_spec(known@, t@, has_fee),
{
    let mut out: Vec<(TradePart, Leg)> = Vec::new();
    match find_known(known, t.trade_id.as_str()) {
        Some(i) => {
            out.push((TradePart::Trade, Leg::Reuse(i)));
            proof {
                assert(out@ =~= trade_plan_spec(known@, t@, has_fee));
            }
            return out;
        },
        None => {},
    }
    out.push((TradePart::Trade, Leg::Make));
    if has_fee {
        let fee = match find_known(known, t.fee_id.as_str()) {
            Some(j) => Leg::Reuse(j),
            None => Leg::Make,
        };
        out.push((TradePart::Fee, fee));
    }
    proof {
        assert(out@ =~= trade_plan_spec(known@, t@, has_fee));
    }
    out
}

/// The transactions of a convert row, in order: the sell leg, then the
/// buy leg (`true` for the sell), each reused when known.
pub open spec fn convert_plan_spec<N>(known: Seq<Transaction<N>>, c: ConvertRowView) -> Seq<(bool, Leg)> {
    seq![(true, leg_for(known_index(known, c.sell_id))), (false, leg_for(known_index(known, c.buy_id)))]
}

fn leg_of<N>(known: &[Transaction<N>], id: &str) -> (r: Leg)
    ensures
        r == leg_for(known_index(known@, id@)),
{
    match find_known(known, id) {
        Some(j) => Leg::Reuse(j),
        None => Leg::Make,
    }
}

/// See [`convert_plan_spec`].
pub fn plan_convert<N>(c: &ConvertRow, known: &[Transaction<N>]) -> (r: Vec<(bool, Leg)>)
    ensures
        r@ == convert_plan_spec(known@, c@),
{
    let sell = leg_of(known, c.sell_id.as_str());
    let buy = leg_of(known, c.buy_id.as_str());
    let mut out: Vec<(bool, Leg)> = Vec::new();
    out.push((true, sell));
    out.push((false, buy));
    proof {
        assert(out@ =~= seq![(true, sell), (false, buy)]);
    }
    out
}

} // verus!
