//! Rows of the Binance exports: a spot trade becomes a trade and, when a
//! fee was charged, a fee; a successful convert becomes a sell and a buy.
//! The amounts stay as text here: converting them to numbers and pricing
//! them in EUR is the caller's part, which then builds the transactions
//! with the functions of this module.
use vstd::prelude::*;

use crate::parse::binance::{
    binance_asset, binance_asset_spec, binance_time_format, field, field_index, is_amount_split,
    normalize_currency_spec, parse_time, quote_currency, split_amount, split_space_amount,
    synthetic_id, synthetic_id_spec, trade_kind,
};
use crate::parse::{ParseError, ParseErrorView};
use crate::schema::{Platform, Transaction, TransactionKind, TransactionView};
use crate::text::{concat, first_index_of, trimmed, upper_text};
use crate::time::{as_timestamp, naive_parse, Timestamp};

verus! {

/// The value of column `key` of a row, or the error naming the column.
pub open spec fn field_spec(row: Seq<(String, String)>, key: Seq<char>) -> Result<Seq<char>, ParseErrorView> {
    match field_index(row, key) {
        Some(i) => Ok(row[i].1@),
        None => Err(ParseErrorView::MissingColumn(key)),
    }
}

/// A time of the Binance exports.
pub open spec fn time_spec(raw: Seq<char>) -> Result<Timestamp, ParseErrorView> {
    match as_timestamp(naive_parse(raw, binance_time_format())) {
        Some(t) => Ok(t),
        None => Err(ParseErrorView::BadTime(raw)),
    }
}

/// An amount with its coin glued to it (`0.5BTC`): its number text and
/// its coin.
pub open spec fn amount_spec(raw: Seq<char>) -> Result<(Seq<char>, Seq<char>), ParseErrorView> {
    if exists|a: Seq<char>, u: Seq<char>| is_amount_split(trimmed(raw), a, u) {
        let (a, u) = choose|a: Seq<char>, u: Seq<char>| is_amount_split(trimmed(raw), a, u);
        Ok((a, u))
    } else {
        Err(ParseErrorView::NoSuffix(raw))
    }
}

/// An amount followed by a space and its coin (`12.5 USDT`).
pub open spec fn spaced_amount_spec(raw: Seq<char>) -> Result<(Seq<char>, Seq<char>), ParseErrorView> {
    match first_index_of(trimmed(raw), ' ') {
        Some(i) => Ok((trimmed(raw).take(i), trimmed(raw).skip(i + 1))),
        None => Err(ParseErrorView::NoSymbol(raw)),
    }
}

/// The kind of a trade from its side, in any case.
pub open spec fn side_spec(side: Seq<char>) -> Result<TransactionKind, ParseErrorView> {
    if upper_text(side) == "BUY"@ {
        Ok(TransactionKind::Buy)
    } else if upper_text(side) == "SELL"@ {
        Ok(TransactionKind::Sell)
    } else {
        Err(ParseErrorView::UnknownSide(upper_text(side)))
    }
}

/// An amount is split in one way only: the number ends where the letters
/// begin.
proof fn lemma_amount_split_unique(t: Seq<char>, a1: Seq<char>, u1: Seq<char>, a2: Seq<char>, u2: Seq<char>)
    requires
        is_amount_split(t, a1, u1),
        is_amount_split(t, a2, u2),
    ensures
        a1 == a2,
        u1 == u2,
{
    if a1.len() < a2.len() {
        assert(t[a1.len() as int] == u1[0]);
        assert(t[a1.len() as int] == a2[a1.len() as int]);
    } else if a2.len() < a1.len() {
        assert(t[a2.len() as int] == u2[0]);
        assert(t[a2.len() as int] == a1[a2.len() as int]);
    } else {
        assert(a1 =~= t.take(a1.len() as int));
        assert(a2 =~= t.take(a2.len() as int));
        assert(u1 =~= t.skip(a1.len() as int));
        assert(u2 =~= t.skip(a2.len() as int));
    }
}

fn read_field<'a>(row: &'a [(String, String)], key: &str) -> (r: Result<&'a str, ParseError>)
    ensures
        match r {
            Ok(v) => field_spec(row@, key@) == Ok::<Seq<char>, ParseErrorView>(v@),
            Err(e) => field_spec(row@, key@) == Err::<Seq<char>, ParseErrorView>(e@),
        },
{
    field(row, key)
}

fn read_time(raw: &str) -> (r: Result<Timestamp, ParseError>)
    ensures
        match r {
            Ok(t) => time_spec(raw@) == Ok::<Timestamp, ParseErrorView>(t),
            Err(e) => time_spec(raw@) == Err::<Timestamp, ParseErrorView>(e@),
        },
{
    parse_time(raw)
}

fn read_amount(raw: &str) -> (r: Result<(String, String), ParseError>)
    ensures
        match r {
            Ok(p) => amount_spec(raw@) == Ok::<(Seq<char>, Seq<char>), ParseErrorView>((p.0@, p.1@)),
            Err(e) => amount_spec(raw@) == Err::<(Seq<char>, Seq<char>), ParseErrorView>(e@),
        },
{
    let r = split_amount(raw);
    proof {
        match &r {
            Ok(p) => {
                let (a, u) = choose|a: Seq<char>, u: Seq<char>| is_amount_split(trimmed(raw@), a, u);
                lemma_amount_split_unique(trimmed(raw@), a, u, p.0@, p.1@);
            },
            Err(_) => {},
        }
    }
    r
}

fn read_spaced_amount(raw: &str) -> (r: Result<(String, String), ParseError>)
    ensures
        match r {
            Ok(p) => spaced_amount_spec(raw@) == Ok::<(Seq<char>, Seq<char>), ParseErrorView>((p.0@, p.1@)),
            Err(e) => spaced_amount_spec(raw@) == Err::<(Seq<char>, Seq<char>), ParseErrorView>(e@),
        },
{
    split_space_amount(raw)
}

fn read_side(side: &str) -> (r: Result<TransactionKind, ParseError>)
    ensures
        match r {
            Ok(k) => side_spec(side@) == Ok::<TransactionKind, ParseErrorView>(k),
            Err(e) => side_spec(side@) == Err::<TransactionKind, ParseErrorView>(e@),
        },
{
    trade_kind(side)
}

/// A row of the spot trade history, read up to its amounts.
pub struct TradeRow {
    pub time: Timestamp,
    pub kind: TransactionKind,
    /// The side in upper case.
    pub side: String,
    /// Executed quantity (number text) and base coin.
    pub base_amount: String,
    pub base_symbol: String,
    /// Amount paid or received (number text) and quote coin.
    pub quote_amount: String,
    pub quote_symbol: String,
    /// Fee (number text) and its coin.
    pub fee_amount: String,
    pub fee_symbol: String,
    /// Identifier of the trade.
    pub trade_id: String,
    /// Identifier of its fee.
    pub fee_id: String,
}

pub struct TradeRowView {
    pub time: Timestamp,
    pub kind: TransactionKind,
    pub side: Seq<char>,
    pub base: (Seq<char>, Seq<char>),
    pub quote: (Seq<char>, Seq<char>),
    pub fee: (Seq<char>, Seq<char>),
    pub trade_id: Seq<char>,
    pub fee_id: Seq<char>,
}

impl View for TradeRow {
    type V = TradeRowView;

    open spec fn view(&self) -> TradeRowView {
        TradeRowView {
            time: self.time,
            kind: self.kind,
            side: self.side@,
            base: (self.base_amount@, self.base_symbol@),
            quote: (self.quote_amount@, self.quote_symbol@),
            fee: (self.fee_amount@, self.fee_symbol@),
            trade_id: self.trade_id@,
            fee_id: self.fee_id@,
        }
    }
}

/// The text of column `key` and the amount written in it.
pub open spec fn column_amount(row: Seq<(String, String)>, key: Seq<char>) -> Result<
    (Seq<char>, (Seq<char>, Seq<char>)),
    ParseErrorView,
> {
    match field_spec(row, key) {
        Err(e) => Err(e),
        Ok(raw) => match amount_spec(raw) {
            Err(e) => Err(e),
            Ok(p) => Ok((raw, p)),
        },
    }
}

/// How a trade row is read, column by column in this order: `Time`,
/// `Executed`, `Amount`, `Fee`, `Side`, then `Pair` and `Price` for the
/// identifier; the first failure is the row's error. The trade is
/// identified by its time, pair, side, price, executed quantity and
/// amount as written; its fee by the trade's identifier and the fee as
/// written.
pub open spec fn trade_row_spec(row: Seq<(String, String)>) -> Result<TradeRowView, ParseErrorView> {
    match field_spec(row, "Time"@) {
        Err(e) => Err(e),
        Ok(time_raw) => match time_spec(time_raw) {
            Err(e) => Err(e),
            Ok(time) => trade_row_amounts(row, time_raw, time),
        },
    }
}

pub open spec fn trade_row_amounts(row: Seq<(String, String)>, time_raw: Seq<char>, time: Timestamp) -> Result<
    TradeRowView,
    ParseErrorView,
> {
    match column_amount(row, "Executed"@) {
        Err(e) => Err(e),
        Ok(executed) => match column_amount(row, "Amount"@) {
            Err(e) => Err(e),
            Ok(amount) => match column_amount(row, "Fee"@) {
                Err(e) => Err(e),
                Ok(fee) => trade_row_side(row, time_raw, time, executed, amount, fee),
            },
        },
    }
}

pub open spec fn trade_row_side(
    row: Seq<(String, String)>,
    time_raw: Seq<char>,
    time: Timestamp,
    executed: (Seq<char>, (Seq<char>, Seq<char>)),
    amount: (Seq<char>, (Seq<char>, Seq<char>)),
    fee: (Seq<char>, (Seq<char>, Seq<char>)),
) -> Result<TradeRowView, ParseErrorView> {
    match field_spec(row, "Side"@) {
        Err(e) => Err(e),
        Ok(side_raw) => match side_spec(side_raw) {
            Err(e) => Err(e),
            Ok(kind) => match field_spec(row, "Pair"@) {
                Err(e) => Err(e),
                Ok(pair) => match field_spec(row, "Price"@) {
                    Err(e) => Err(e),
                    Ok(price) => {
                        let trade_id = synthetic_id_spec(
                            "binance-trade"@,
                            seq![time_raw, pair, side_raw, price, executed.0, amount.0],
                        );
                        Ok(TradeRowView {
                            time,
                            kind,
                            side: upper_text(side_raw),
                            base: executed.1,
                            quote: amount.1,
                            fee: fee.1,
                            trade_id,
                            fee_id: synthetic_id_spec("binance-fee"@, seq![trade_id, fee.0]),
                        })
                    },
                },
            },
        },
    }
}

fn read_column_amount<'a>(row: &'a [(String, String)], key: &str) -> (r: Result<(&'a str, String, String), ParseError>)
    ensures
        match r {
            Ok(p) => column_amount(row@, key@) == Ok::<(Seq<char>, (Seq<char>, Seq<char>)), ParseErrorView>((p.0@, (p.1@, p.2@))),
            Err(e) => column_amount(row@, key@) == Err::<(Seq<char>, (Seq<char>, Seq<char>)), ParseErrorView>(e@),
        },
{
    let raw = match read_field(row, key) {
        Ok(v) => v,
        Err(e) => return Err(e),
    };
    match read_amount(raw) {
        Ok((a, u)) => Ok((raw, a, u)),
        Err(e) => Err(e),
    }
}

/// Reads a trade row given as `(header, value)` pairs; see
/// [`trade_row_spec`].
pub fn read_trade_row(row: &[(String, String)]) -> (r: Result<TradeRow, ParseError>)
    ensures
        match r {
            Ok(t) => trade_row_spec(row@) == Ok::<TradeRowView, ParseErrorView>(t@),
            Err(e) => trade_row_spec(row@) == Err::<TradeRowView, ParseErrorView>(e@),
        },
{
    let time_raw = match read_field(row, "Time") {
        Ok(v) => v,
        Err(e) => return Err(e),
    };
    let time = match read_time(time_raw) {
        Ok(t) => t,
        Err(e) => return Err(e),
    };
    let (executed, base_amount, base_symbol) = match read_column_amount(row, "Executed") {
        Ok(p) => p,
        Err(e) => return Err(e),
    };
    let (amount_raw, quote_amount, quote_symbol) = match read_column_amount(row, "Amount") {
        Ok(p) => p,
        Err(e) => return Err(e),
    };
    let (fee_raw, fee_amount, fee_symbol) = match read_column_amount(row, "Fee") {
        Ok(p) => p,
        Err(e) => return Err(e),
    };
    let (side, kind, trade_id, fee_id) = match read_trade_side(row, time_raw, executed, amount_raw, fee_raw) {
        Ok(p) => p,
        Err(e) => return Err(e),
    };
    Ok(TradeRow {
        time,
        kind,
        side,
        base_amount,
        base_symbol,
        quote_amount,
        quote_symbol,
        fee_amount,
        fee_symbol,
        trade_id,
        fee_id,
    })
}

/// The side of a trade row and the identifiers of the trade and its fee.
fn read_trade_side(
    row: &[(String, String)],
    time_raw: &str,
    executed: &str,
    amount_raw: &str,
    fee_raw: &str,
) -> (r: Result<(String, TransactionKind, String, String), ParseError>)
    ensures
        match r {
            Ok(p) => exists|side_raw: Seq<char>, pair: Seq<char>, price: Seq<char>| {
                &&& field_spec(row@, "Side"@) == Ok::<Seq<char>, ParseErrorView>(side_raw)
                &&& side_spec(side_raw) == Ok::<TransactionKind, ParseErrorView>(p.1)
                &&& field_spec(row@, "Pair"@) == Ok::<Seq<char>, ParseErrorView>(pair)
                &&& field_spec(row@, "Price"@) == Ok::<Seq<char>, ParseErrorView>(price)
                &&& p.0@ == upper_text(side_raw)
                &&& p.2@ == synthetic_id_spec(
                    "binance-trade"@,
                    seq![time_raw@, pair, side_raw, price, executed@, amount_raw@],
                )
                &&& p.3@ == synthetic_id_spec("binance-fee"@, seq![p.2@, fee_raw@])
            },
            Err(e) => {
                ||| field_spec(row@, "Side"@) == Err::<Seq<char>, ParseErrorView>(e@)
                ||| (field_spec(row@, "Side"@) is Ok && side_spec(field_spec(row@, "Side"@)->Ok_0) == Err::<TransactionKind, ParseErrorView>(e@))
                ||| (field_spec(row@, "Side"@) is Ok && side_spec(field_spec(row@, "Side"@)->Ok_0) is Ok
                    && field_spec(row@, "Pair"@) == Err::<Seq<char>, ParseErrorView>(e@))
                ||| (field_spec(row@, "Side"@) is Ok && side_spec(field_spec(row@, "Side"@)->Ok_0) is Ok
                    && field_spec(row@, "Pair"@) is Ok && field_spec(row@, "Price"@) == Err::<Seq<char>, ParseErrorView>(e@))
            },
        },
{
    let side_raw = match read_field(row, "Side") {
        Ok(v) => v,
        Err(e) => return Err(e),
    };
    let kind = match read_side(side_raw) {
        Ok(k) => k,
        Err(e) => return Err(e),
    };
    let pair = match read_field(row, "Pair") {
        Ok(v) => v,
        Err(e) => return Err(e),
    };
    let price = match read_field(row, "Price") {
        Ok(v) => v,
        Err(e) => return Err(e),
    };
    let parts = vec![time_raw, pair, side_raw, price, executed, amount_raw];
    proof {
        assert(crate::parse::binance::strs_view(parts@) =~= seq![time_raw@, pair@, side_raw@, price@, executed@, amount_raw@]);
    }
    let trade_id = synthetic_id("binance-trade", parts.as_slice());
    let fee_parts = vec![trade_id.as_str(), fee_raw];
    proof {
        assert(crate::parse::binance::strs_view(fee_parts@) =~= seq![trade_id@, fee_raw@]);
    }
    let fee_id = synthetic_id("binance-fee", fee_parts.as_slice());
    Ok((crate::text::to_upper(side_raw), kind, trade_id, fee_id))
}

/// Cash currency of a coin, or the coin itself.
pub open spec fn quote_currency_spec(coin: Seq<char>) -> Seq<char> {
    match normalize_currency_spec(coin) {
        Some(c) => c,
        None => coin,
    }
}

/// The trade of a row on the spot account: `quantity` of the base coin,
/// worth `value_eur` at `eur_price` a unit, for `quote_amount` of the
/// quote coin.
pub open spec fn trade_tx_spec<N>(
    t: TradeRowView,
    quantity: N,
    eur_price: N,
    quote_amount: N,
    value_eur: N,
    source_file: Seq<char>,
) -> TransactionView<N> {
    TransactionView {
        platform: Platform::Binance,
        account_label: "Spot"@,
        kind: t.kind,
        asset: binance_asset_spec(t.base.1),
        quantity,
        price: Some(eur_price),
        value_eur,
        amount: Some(quote_amount),
        quote_currency: Some(quote_currency_spec(t.quote.1)),
        time: t.time,
        external_id: Some(t.trade_id),
        remark: None,
        source_file,
    }
}

/// The fee of a trade row: `fee_amount` of the fee coin, worth
/// `fee_value_eur`; its price is the EUR price of the traded coin, not
/// that of the fee coin.
pub open spec fn fee_tx_spec<N>(
    t: TradeRowView,
    fee_amount: N,
    eur_price: N,
    fee_value_eur: N,
    source_file: Seq<char>,
) -> TransactionView<N> {
    TransactionView {
        platform: Platform::Binance,
        account_label: "Spot"@,
        kind: TransactionKind::Fee,
        asset: binance_asset_spec(t.fee.1),
        quantity: fee_amount,
        price: Some(eur_price),
        value_eur: fee_value_eur,
        amount: None,
        quote_currency: None,
        time: t.time,
        external_id: Some(t.fee_id),
        remark: Some("Fee on "@ + t.side + " "@ + t.base.1),
        source_file,
    }
}

/// See [`trade_tx_spec`].
pub fn trade_transaction<N: Copy>(
    t: &TradeRow,
    quantity: N,
    eur_price: N,
    quote_amount: N,
    value_eur: N,
    source_file: &str,
) -> (r: Transaction<N>)
    ensures
        r@ == trade_tx_spec(t@, quantity, eur_price, quote_amount, value_eur, source_file@),
        r.value_eur == value_eur,
        r.amount == Some(quote_amount),
        r.quantity == quantity,
        r.price == Some(eur_price),
{
    Transaction {
        platform: Platform::Binance,
        account_label: String::from_str("Spot"),
        kind: t.kind,
        asset: binance_asset(t.base_symbol.as_str()),
        quantity,
        price: Some(eur_price),
        amount: Some(quote_amount),
        quote_currency: Some(quote_currency(t.quote_symbol.as_str())),
        time: t.time,
        value_eur,
        external_id: Some(t.trade_id.clone()),
        remark: None,
        source_file: String::from_str(source_file),
    }
}

/// See [`fee_tx_spec`].
pub fn fee_transaction<N: Copy>(
    t: &TradeRow,
    fee_amount: N,
    eur_price: N,
    fee_value_eur: N,
    source_file: &str,
) -> (r: Transaction<N>)
    ensures
        r@ == fee_tx_spec(t@, fee_amount, eur_price, fee_value_eur, source_file@),
        r.value_eur == fee_value_eur,
        r.quantity == fee_amount,
{
    let mut remark = concat("Fee on ", t.side.as_str());
    remark.append(" ");
    remark.append(t.base_symbol.as_str());
    Transaction {
        platform: Platform::Binance,
        account_label: String::from_str("Spot"),
        kind: TransactionKind::Fee,
        asset: binance_asset(t.fee_symbol.as_str()),
        quantity: fee_amount,
        price: Some(eur_price),
        amount: None,
        quote_currency: None,
        time: t.time,
        value_eur: fee_value_eur,
        external_id: Some(t.fee_id.clone()),
        remark: Some(remark),
        source_file: String::from_str(source_file),
    }
}

/// A successful row of the convert history, read up to its amounts.
pub struct ConvertRow {
    pub time: Timestamp,
    /// The wallet, which labels the account.
    pub wallet: String,
    /// Amount given (number text) and its coin.
    pub sell_amount: String,
    pub sell_symbol: String,
    /// Amount received (number text) and its coin.
    pub buy_amount: String,
    pub buy_symbol: String,
    /// Identifiers of the two legs.
    pub sell_id: String,
    pub buy_id: String,
}

pub struct ConvertRowView {
    pub time: Timestamp,
    pub wallet: Seq<char>,
    pub sell: (Seq<char>, Seq<char>),
    pub buy: (Seq<char>, Seq<char>),
    pub sell_id: Seq<char>,
    pub buy_id: Seq<char>,
}

impl View for ConvertRow {
    type V = ConvertRowView;

    open spec fn view(&self) -> ConvertRowView {
        ConvertRowView {
            time: self.time,
            wallet: self.wallet@,
            sell: (self.sell_amount@, self.sell_symbol@),
            buy: (self.buy_amount@, self.buy_symbol@),
            sell_id: self.sell_id@,
            buy_id: self.buy_id@,
        }
    }
}

/// The text of column `key` and the spaced amount written in it.
pub open spec fn column_spaced_amount(row: Seq<(String, String)>, key: Seq<char>) -> Result<
    (Seq<char>, (Seq<char>, Seq<char>)),
    ParseErrorView,
> {
    match field_spec(row, key) {
        Err(e) => Err(e),
        Ok(raw) => match spaced_amount_spec(raw) {
            Err(e) => Err(e),
            Ok(p) => Ok((raw, p)),
        },
    }
}

/// How a convert row is read: `Status` first, and a row whose status is
/// not `Successful` is skipped (`Ok(None)`); then `Time`, `Sell`, `Buy`,
/// and `Wallet`, `Pair`, `Price` for the identifier, the first failure
/// being the row's error. The convert is identified by its time, wallet,
/// pair, amounts and price as written; its legs by that identifier and
/// `-sell` or `-buy`.
pub open spec fn convert_row_spec(row: Seq<(String, String)>) -> Result<Option<ConvertRowView>, ParseErrorView> {
    match field_spec(row, "Status"@) {
        Err(e) => Err(e),
        Ok(status) => if status != "Successful"@ {
            Ok(None)
        } else {
            match field_spec(row, "Time"@) {
                Err(e) => Err(e),
                Ok(time_raw) => match time_spec(time_raw) {
                    Err(e) => Err(e),
                    Ok(time) => convert_row_amounts(row, time_raw, time),
                },
            }
        },
    }
}

pub open spec fn convert_row_amounts(row: Seq<(String, String)>, time_raw: Seq<char>, time: Timestamp) -> Result<
    Option<ConvertRowView>,
    ParseErrorView,
> {
    match column_spaced_amount(row, "Sell"@) {
        Err(e) => Err(e),
        Ok(sell) => match column_spaced_amount(row, "Buy"@) {
            Err(e) => Err(e),
            Ok(buy) => match convert_ids_spec(row, time_raw, sell.0, buy.0) {
                Err(e) => Err(e),
                Ok(ids) => Ok(
                    Some(
                        ConvertRowView {
                            time,
                            wallet: ids.0,
                            sell: sell.1,
                            buy: buy.1,
                            sell_id: ids.1,
                            buy_id: ids.2,
                        },
                    ),
                ),
            },
        },
    }
}

/// The wallet of a convert row and the identifiers of its two legs.
pub open spec fn convert_ids_spec(
    row: Seq<(String, String)>,
    time_raw: Seq<char>,
    sell_raw: Seq<char>,
    buy_raw: Seq<char>,
) -> Result<(Seq<char>, Seq<char>, Seq<char>), ParseErrorView> {
    match field_spec(row, "Wallet"@) {
        Err(e) => Err(e),
        Ok(wallet) => match field_spec(row, "Pair"@) {
            Err(e) => Err(e),
            Ok(pair) => match field_spec(row, "Price"@) {
                Err(e) => Err(e),
                Ok(price) => {
                    let id = synthetic_id_spec(
                        "binance-convert"@,
                        seq![time_raw, wallet, pair, sell_raw, buy_raw, price],
                    );
                    Ok((wallet, id + "-sell"@, id + "-buy"@))
                },
            },
        },
    }
}

#[verifier::rlimit(40)]
fn read_convert_ids(row: &[(String, String)], time_raw: &str, sell_raw: &str, buy_raw: &str) -> (r: Result<
    (String, String, String),
    ParseError,
>)
    ensures
        match r {
            Ok(p) => convert_ids_spec(row@, time_raw@, sell_raw@, buy_raw@) == Ok::<
                (Seq<char>, Seq<char>, Seq<char>),
                ParseErrorView,
            >((p.0@, p.1@, p.2@)),
            Err(e) => convert_ids_spec(row@, time_raw@, sell_raw@, buy_raw@) == Err::<
                (Seq<char>, Seq<char>, Seq<char>),
                ParseErrorView,
            >(e@),
        },
{
    let wallet = match read_field(row, "Wallet") {
        Ok(v) => v,
        Err(e) => return Err(e),
    };
    let pair = match read_field(row, "Pair") {
        Ok(v) => v,
        Err(e) => return Err(e),
    };
    let price = match read_field(row, "Price") {
        Ok(v) => v,
        Err(e) => return Err(e),
    };
    let parts = vec![time_raw, wallet, pair, sell_raw, buy_raw, price];
    proof {
        assert(crate::parse::binance::strs_view(parts@) =~= seq![time_raw@, wallet@, pair@, sell_raw@, buy_raw@, price@]);
    }
    let id = synthetic_id("binance-convert", parts.as_slice());
    Ok((String::from_str(wallet), concat(id.as_str(), "-sell"), concat(id.as_str(), "-buy")))
}

fn read_column_spaced_amount<'a>(row: &'a [(String, String)], key: &str) -> (r: Result<(&'a str, String, String), ParseError>)
    ensures
        match r {
            Ok(p) => column_spaced_amount(row@, key@) == Ok::<(Seq<char>, (Seq<char>, Seq<char>)), ParseErrorView>((p.0@, (p.1@, p.2@))),
            Err(e) => column_spaced_amount(row@, key@) == Err::<(Seq<char>, (Seq<char>, Seq<char>)), ParseErrorView>(e@),
        },
{
    let raw = match read_field(row, key) {
        Ok(v) => v,
        Err(e) => return Err(e),
    };
    match read_spaced_amount(raw) {
        Ok((a, u)) => Ok((raw, a, u)),
        Err(e) => Err(e),
    }
}

/// Reads a convert row given as `(header, value)` pairs; see
/// [`convert_row_spec`].
pub fn read_convert_row(row: &[(String, String)]) -> (r: Result<Option<ConvertRow>, ParseError>)
    ensures
        match r {
            Ok(None) => convert_row_spec(row@) == Ok::<Option<ConvertRowView>, ParseErrorView>(None),
            Ok(Some(c)) => convert_row_spec(row@) == Ok::<Option<ConvertRowView>, ParseErrorView>(Some(c@)),
            Err(e) => convert_row_spec(row@) == Err::<Option<ConvertRowView>, ParseErrorView>(e@),
        },
{
    let status = match read_field(row, "Status") {
        Ok(v) => v,
        Err(e) => return Err(e),
    };
    if !crate::text::text_eq(status, "Successful") {
        return Ok(None);
    }
    let time_raw = match read_field(row, "Time") {
        Ok(v) => v,
        Err(e) => return Err(e),
    };
    let time = match read_time(time_raw) {
        Ok(t) => t,
        Err(e) => return Err(e),
    };
    let (sell_raw, sell_amount, sell_symbol) = match read_column_spaced_amount(row, "Sell") {
        Ok(p) => p,
        Err(e) => return Err(e),
    };
    let (buy_raw, buy_amount, buy_symbol) = match read_column_spaced_amount(row, "Buy") {
        Ok(p) => p,
        Err(e) => return Err(e),
    };
    let (wallet, sell_id, buy_id) = match read_convert_ids(row, time_raw, sell_raw, buy_raw) {
        Ok(p) => p,
        Err(e) => return Err(e),
    };
    Ok(Some(ConvertRow { time, wallet, sell_amount, sell_symbol, buy_amount, buy_symbol, sell_id, buy_id }))
}

/// One leg of a convert: the sell leg (`sell`) gives `quantity` of the
/// sold coin, the buy leg receives `quantity` of the bought coin; each is
/// worth `value_eur` at `eur_price` a unit, quoted in EUR.
pub open spec fn convert_leg_spec<N>(
    c: ConvertRowView,
    sell: bool,
    quantity: N,
    eur_price: N,
    value_eur: N,
    source_file: Seq<char>,
) -> TransactionView<N> {
    TransactionView {
        platform: Platform::Binance,
        account_label: c.wallet,
        kind: if sell {
            TransactionKind::Sell
        } else {
            TransactionKind::Buy
        },
        asset: binance_asset_spec(
            if sell {
                c.sell.1
            } else {
                c.buy.1
            },
        ),
        quantity,
        price: Some(eur_price),
        value_eur,
        amount: Some(value_eur),
        quote_currency: Some("EUR"@),
        time: c.time,
        external_id: Some(
            if sell {
                c.sell_id
            } else {
                c.buy_id
            },
        ),
        remark: Some("Convert"@),
        source_file,
    }
}

/// See [`convert_leg_spec`].
pub fn convert_leg<N: Copy>(
    c: &ConvertRow,
    sell: bool,
    quantity: N,
    eur_price: N,
    value_eur: N,
    source_file: &str,
) -> (r: Transaction<N>)
    ensures
        r@ == convert_leg_spec(c@, sell, quantity, eur_price, value_eur, source_file@),
{
    let (kind, symbol, id) = if sell {
        (TransactionKind::Sell, c.sell_symbol.as_str(), c.sell_id.clone())
    } else {
        (TransactionKind::Buy, c.buy_symbol.as_str(), c.buy_id.clone())
    };
    Transaction {
        platform: Platform::Binance,
        account_label: c.wallet.clone(),
        kind,
        asset: binance_asset(symbol),
        quantity,
        price: Some(eur_price),
        amount: Some(value_eur),
        value_eur,
        quote_currency: Some(String::from_str("EUR")),
        time: c.time,
        external_id: Some(id),
        remark: Some(String::from_str("Convert")),
        source_file: String::from_str(source_file),
    }
}

/// A spot trade carries the EUR value and the quote amount it is given,
/// separately, whatever the quote coin: its value is `value_eur`, its
/// amount `quote_amount`, its quantity and price those of the base coin.
/// Its kind is the row's side. Its fee is a fee and carries the fee's own
/// EUR value.
pub proof fn lemma_trade_values_are_kept<N>(
    t: TradeRowView,
    quantity: N,
    eur_price: N,
    quote_amount: N,
    value_eur: N,
    fee_amount: N,
    fee_value_eur: N,
    source_file: Seq<char>,
)
    ensures
        trade_tx_spec(t, quantity, eur_price, quote_amount, value_eur, source_file).value_eur == value_eur,
        trade_tx_spec(t, quantity, eur_price, quote_amount, value_eur, source_file).amount == Some(quote_amount),
        trade_tx_spec(t, quantity, eur_price, quote_amount, value_eur, source_file).quantity == quantity,
        trade_tx_spec(t, quantity, eur_price, quote_amount, value_eur, source_file).price == Some(eur_price),
        fee_tx_spec(t, fee_amount, eur_price, fee_value_eur, source_file).value_eur == fee_value_eur,
        fee_tx_spec(t, fee_amount, eur_price, fee_value_eur, source_file).quantity == fee_amount,
        trade_tx_spec(t, quantity, eur_price, quote_amount, value_eur, source_file).kind == t.kind,
        fee_tx_spec(t, fee_amount, eur_price, fee_value_eur, source_file).kind == TransactionKind::Fee,
{
}

} // verus!
