//! Rules of the XTB exports (spreadsheets): open and closed positions and
//! cash operations.
//!
//! Opening the workbook and reading cells is left to the caller, which
//! hands in cell texts; this module finds sheets, header rows and columns,
//! classifies cash operations and turns positions into transactions.
use vstd::prelude::*;

use crate::schema::{
    copy_opt, opt_view, Asset, AssetIdentifiers, AssetKind, Platform, Transaction, TransactionKind,
    TransactionView,
};
use crate::text::{
    after_last, concat, split_last, starts_with, starts_with_spec, text_eq, to_lower, lower_text, trim,
    trimmed,
};
use crate::time::{as_timestamp, naive_parse, parse_naive_utc, Timestamp};

verus! {

/// Why an XTB export could not be read.
#[derive(Debug)]
pub enum XtbError {
    /// No sheet name starts with this prefix.
    MissingSheet(String),
    /// No row holds this column name.
    MissingHeader(String),
    /// The header row has no column of this name.
    MissingColumn(String),
    /// The row has no cell under this column.
    MissingCell(String),
    /// A date-time cell in an unexpected format (its text).
    BadTime(String),
    /// A cash operation type that is not handled (its text).
    UnhandledCashType(String),
}

pub open spec fn currency_for_suffix(suffix: Seq<char>) -> Seq<char> {
    if suffix == "DE"@ || suffix == "NL"@ || suffix == "FR"@ || suffix == "ES"@ || suffix == "IT"@ {
        "EUR"@
    } else if suffix == "UK"@ {
        "GBP"@
    } else if suffix == "US"@ {
        "USD"@
    } else {
        "EUR"@
    }
}

/// Currency guessed from the exchange suffix of an XTB symbol (the part
/// after its last '.'): euro markets, London, US; EUR otherwise.
pub open spec fn infer_currency_spec(symbol: Seq<char>) -> Seq<char> {
    currency_for_suffix(after_last(symbol, '.'))
}

/// See [`infer_currency_spec`].
pub fn infer_currency(symbol: &str) -> (r: String)
    ensures
        r@ == infer_currency_spec(symbol@),
{
    let suffix = split_last(symbol, '.');
    let s = suffix.as_str();
    if text_eq(s, "DE") || text_eq(s, "NL") || text_eq(s, "FR") || text_eq(s, "ES") || text_eq(s, "IT") {
        String::from_str("EUR")
    } else if text_eq(s, "UK") {
        String::from_str("GBP")
    } else if text_eq(s, "US") {
        String::from_str("USD")
    } else {
        String::from_str("EUR")
    }
}

/// The currency a symbol actually trades in: the one Yahoo reports for
/// it (`quoted`, when the look-up succeeded), never a guess from the
/// suffix unless that look-up failed.
pub fn real_trading_currency(symbol: &str, quoted: Option<String>) -> (r: String)
    ensures
        r@ == match opt_view(quoted) {
            Some(c) => c,
            None => infer_currency_spec(symbol@),
        },
{
    match quoted {
        Some(c) => c,
        None => infer_currency(symbol),
    }
}

/// A closed position of the XTB export.
#[derive(Debug)]
pub struct XtbClosedPosition<N> {
    pub position_id: String,
    pub symbol: String,
    pub volume: N,
    pub open_time: Timestamp,
    pub open_price: N,
    pub close_time: Timestamp,
    pub close_price: N,
    pub purchase_value: N,
    pub sale_value: N,
    pub source_file: String,
}

/// An open position of the XTB export.
#[derive(Debug)]
pub struct XtbOpenPosition<N> {
    pub position_id: String,
    pub symbol: String,
    pub volume: N,
    pub open_time: Timestamp,
    pub open_price: N,
    pub purchase_value: N,
    pub comment: Option<String>,
    pub source_file: String,
}

/// The stock asset of an XTB symbol, referenced in its inferred currency.
pub open spec fn xtb_asset_spec(symbol: Seq<char>) -> crate::schema::AssetView {
    crate::schema::AssetView {
        symbol: symbol,
        name: symbol,
        kind: AssetKind::Stock,
        ref_currency: infer_currency_spec(symbol),
        identifiers: crate::schema::AssetIdentifiersView { isin: None, ticker: None },
    }
}

fn xtb_asset(symbol: &String) -> (r: Asset)
    ensures
        r@ == xtb_asset_spec(symbol@),
{
    Asset {
        symbol: symbol.clone(),
        name: symbol.clone(),
        kind: AssetKind::Stock,
        ref_currency: infer_currency(symbol.as_str()),
        identifiers: AssetIdentifiers::none(),
    }
}

impl<N: Copy> XtbClosedPosition<N> {
    /// The buy at opening and the sell at closing, valued at the purchase
    /// and sale values, with identifiers `<id>-buy` and `<id>-sell`.
    pub fn to_transactions(&self) -> (r: Vec<Transaction<N>>)
        ensures
            r@.len() == 2,
            r@[0]@ == (TransactionView::<N> {
                platform: Platform::Xtb,
                account_label: "XTB"@,
                kind: TransactionKind::Buy,
                asset: xtb_asset_spec(self.symbol@),
                quantity: self.volume,
                price: Some(self.open_price),
                value_eur: self.purchase_value,
                amount: Some(self.purchase_value),
                quote_currency: None,
                time: self.open_time,
                external_id: Some(self.position_id@ + "-buy"@),
                remark: None,
                source_file: self.source_file@,
            }),
            r@[1]@ == (TransactionView::<N> {
                platform: Platform::Xtb,
                account_label: "XTB"@,
                kind: TransactionKind::Sell,
                asset: xtb_asset_spec(self.symbol@),
                quantity: self.volume,
                price: Some(self.close_price),
                value_eur: self.sale_value,
                amount: Some(self.sale_value),
                quote_currency: None,
                time: self.close_time,
                external_id: Some(self.position_id@ + "-sell"@),
                remark: None,
                source_file: self.source_file@,
            }),
    {
        let buy = Transaction {
            platform: Platform::Xtb,
            account_label: String::from_str("XTB"),
            kind: TransactionKind::Buy,
            asset: xtb_asset(&self.symbol),
            quantity: self.volume,
            price: Some(self.open_price),
            amount: Some(self.purchase_value),
            quote_currency: None,
            time: self.open_time,
            value_eur: self.purchase_value,
            external_id: Some(concat(self.position_id.as_str(), "-buy")),
            remark: None,
            source_file: self.source_file.clone(),
        };
        let sell = Transaction {
            platform: Platform::Xtb,
            account_label: String::from_str("XTB"),
            kind: TransactionKind::Sell,
            asset: xtb_asset(&self.symbol),
            quantity: self.volume,
            price: Some(self.close_price),
            amount: Some(self.sale_value),
            quote_currency: None,
            time: self.close_time,
            value_eur: self.sale_value,
            external_id: Some(concat(self.position_id.as_str(), "-sell")),
            remark: None,
            source_file: self.source_file.clone(),
        };
        let mut out = Vec::new();
        out.push(buy);
        out.push(sell);
        out
    }
}

impl<N: Copy> XtbOpenPosition<N> {
    /// The buy that opened the position, valued at its acquisition cost,
    /// identified by the position id.
    pub fn to_transaction(&self) -> (r: Transaction<N>)
        ensures
            r@ == (TransactionView::<N> {
                platform: Platform::Xtb,
                account_label: "XTB"@,
                kind: TransactionKind::Buy,
                asset: xtb_asset_spec(self.symbol@),
                quantity: self.volume,
                price: Some(self.open_price),
                value_eur: self.purchase_value,
                amount: Some(self.purchase_value),
                quote_currency: None,
                time: self.open_time,
                external_id: Some(self.position_id@),
                remark: opt_view(self.comment),
                source_file: self.source_file@,
            }),
    {
        Transaction {
            platform: Platform::Xtb,
            account_label: String::from_str("XTB"),
            kind: TransactionKind::Buy,
            asset: xtb_asset(&self.symbol),
            quantity: self.volume,
            price: Some(self.open_price),
            amount: Some(self.purchase_value),
            quote_currency: None,
            time: self.open_time,
            value_eur: self.purchase_value,
            external_id: Some(self.position_id.clone()),
            remark: copy_opt(&self.comment),
            source_file: self.source_file.clone(),
        }
    }
}

/// The first sheet name starting with `prefix` (the open-positions sheet
/// is named after the export date).
pub fn find_sheet_by_prefix(sheet_names: &[String], prefix: &str) -> (r: Result<String, XtbError>)
    ensures
        match r {
            Ok(name) => exists|i: int|
                0 <= i < sheet_names@.len() && sheet_names@[i]@ == name@ && starts_with_spec(name@, prefix@)
                    && forall|j: int| 0 <= j < i ==> !starts_with_spec(#[trigger] sheet_names@[j]@, prefix@),
            Err(e) => (e matches XtbError::MissingSheet(p) && p@ == prefix@) && forall|j: int|
                0 <= j < sheet_names@.len() ==> !starts_with_spec(#[trigger] sheet_names@[j]@, prefix@),
        },
{
    let mut i: usize = 0;
    while i < sheet_names.len()
        invariant
            i <= sheet_names@.len(),
            forall|j: int| 0 <= j < i ==> !starts_with_spec(#[trigger] sheet_names@[j]@, prefix@),
        decreases sheet_names@.len() - i,
    {
        if starts_with(sheet_names[i].as_str(), prefix) {
            return Ok(sheet_names[i].clone());
        }
        i = i + 1;
    }
    Err(XtbError::MissingSheet(String::from_str(prefix)))
}

/// The header row is the first whose cells hold `required_col`, compared
/// in lower case after trimming the name asked for (the exports have a
/// varying number of title and summary rows above the table).
pub open spec fn is_header_row(rows: Seq<Vec<String>>, required: Seq<char>, i: int) -> bool {
    exists|c: int| 0 <= c < rows[i]@.len() && lower_text(#[trigger] rows[i]@[c]@) == lower_text(trimmed(required))
}

/// See [`is_header_row`]; `rows` holds the text of each cell.
pub fn find_header_row(rows: &[Vec<String>], required_col: &str) -> (r: Result<usize, XtbError>)
    ensures
        match r {
            Ok(i) => i < rows@.len() && is_header_row(rows@, required_col@, i as int) && forall|j: int|
                0 <= j < i ==> !is_header_row(rows@, required_col@, j),
            Err(e) => (e matches XtbError::MissingHeader(c) && c@ == required_col@) && forall|j: int|
                0 <= j < rows@.len() ==> !is_header_row(rows@, required_col@, j),
        },
{
    let required_lower = to_lower(trim(required_col));
    let mut i: usize = 0;
    while i < rows.len()
        invariant
            i <= rows@.len(),
            required_lower@ == lower_text(trimmed(required_col@)),
            forall|j: int| 0 <= j < i ==> !is_header_row(rows@, required_col@, j),
        decreases rows@.len() - i,
    {
        let row = &rows[i];
        let mut c: usize = 0;
        while c < row.len()
            invariant
                i < rows@.len(),
                forall|j: int| 0 <= j < i ==> !is_header_row(rows@, required_col@, j),
                c <= row@.len(),
                *row == rows@[i as int],
                required_lower@ == lower_text(trimmed(required_col@)),
                forall|d: int| 0 <= d < c ==> lower_text(#[trigger] row@[d]@) != required_lower@,
            decreases row@.len() - c,
        {
            let cell = to_lower(row[c].as_str());
            if cell == required_lower {
                proof {
                    assert(lower_text(rows@[i as int]@[c as int]@) == lower_text(trimmed(required_col@)));
                }
                return Ok(i);
            }
            c = c + 1;
        }
        proof {
            assert(!is_header_row(rows@, required_col@, i as int));
        }
        i = i + 1;
    }
    Err(XtbError::MissingHeader(String::from_str(required_col)))
}

/// Column names of a header row, in lower case, by position (`None` for
/// an empty cell).
pub struct ColumnMap {
    names: Vec<Option<String>>,
}

/// Position of the column named `key` (lower case): the last position
/// with that name, as when a name -> position map is built from left to
/// right.
pub open spec fn column_of(names: Seq<Option<Seq<char>>>, key: Seq<char>) -> Option<int> {
    if exists|i: int| 0 <= i < names.len() && names[i] == Some(key) {
        Some(choose|i: int| 0 <= i < names.len() && names[i] == Some(key) && forall|j: int| i < j < names.len() ==> names[j] != Some(key))
    } else {
        None
    }
}

pub open spec fn names_view(v: Seq<Option<String>>) -> Seq<Option<Seq<char>>> {
    v.map_values(|o: Option<String>| opt_view(o))
}

impl View for ColumnMap {
    type V = Seq<Option<Seq<char>>>;

    closed spec fn view(&self) -> Seq<Option<Seq<char>>> {
        names_view(self.names@)
    }
}

/// Column names of a header row whose cells hold `header`: the lower case
/// of each non-empty cell, by position. Case is ignored because the
/// exports changed the case of some headers between versions.
pub fn column_map(header: &[String]) -> (r: ColumnMap)
    ensures
        r@.len() == header@.len(),
        forall|i: int|
            0 <= i < header@.len() ==> #[trigger] r@[i] == if header@[i]@.len() == 0 {
                None
            } else {
                Some(lower_text(header@[i]@))
            },
{
    let mut names: Vec<Option<String>> = Vec::new();
    let mut i: usize = 0;
    while i < header.len()
        invariant
            i <= header@.len(),
            names@.len() == i,
            forall|k: int|
                0 <= k < i ==> #[trigger] names_view(names@)[k] == if header@[k]@.len() == 0 {
                    None
                } else {
                    Some(lower_text(header@[k]@))
                },
        decreases header@.len() - i,
    {
        let ghost before = names@;
        if header[i].as_str().is_empty() {
            names.push(None);
        } else {
            names.push(Some(to_lower(header[i].as_str())));
        }
        proof {
            assert forall|k: int| 0 <= k < i + 1 implies #[trigger] names_view(names@)[k] == if header@[k]@.len() == 0 {
                None
            } else {
                Some(lower_text(header@[k]@))
            } by {
                if k < i {
                    assert(names@[k] == before[k]);
                    assert(names_view(before)[k] == names_view(names@)[k]);
                }
            }
        }
        i = i + 1;
    }
    ColumnMap { names }
}

/// Position of the column whose (lower-case) name is `key`; see
/// [`column_of`].
pub fn column_index(map: &ColumnMap, key: &str) -> (r: Option<usize>)
    ensures
        match r {
            Some(i) => column_of(map@, key@) == Some(i as int),
            None => column_of(map@, key@) is None,
        },
{
    let ghost nv = map@;
    let mut i: usize = map.names.len();
    while i > 0
        invariant
            i <= map.names@.len(),
            nv == map@,
            nv.len() == map.names@.len(),
            forall|j: int| i <= j < nv.len() ==> nv[j] != Some(key@),
        decreases i,
    {
        let hit = match &map.names[i - 1] {
            Some(n) => text_eq(n.as_str(), key),
            None => false,
        };
        if hit {
            proof {
                assert(nv[i - 1] == Some(key@));
                let w = choose|w: int| 0 <= w < nv.len() && nv[w] == Some(key@) && forall|j: int| w < j < nv.len() ==> nv[j] != Some(key@);
                assert(w == i - 1) by {
                    if w < i - 1 {
                    } else if w > i - 1 {
                    }
                }
            }
            return Some(i - 1);
        }
        proof {
            assert(nv[i - 1] != Some(key@));
        }
        i = i - 1;
    }
    None
}

fn column_position(map: &ColumnMap, name: &str) -> (r: Option<usize>)
    ensures
        match r {
            Some(i) => column_of(map@, lower_text(trimmed(name@))) == Some(i as int),
            None => column_of(map@, lower_text(trimmed(name@))) is None,
        },
{
    let key = to_lower(trim(name));
    column_index(map, key.as_str())
}

/// Whether the header has a column `name` (any case, trimmed).
pub fn has_col(col_map: &ColumnMap, name: &str) -> (r: bool)
    ensures
        r == column_of(col_map@, lower_text(trimmed(name@))) is Some,
{
    column_position(col_map, name).is_some()
}

/// The cell of `row` under column `name` (any case, trimmed).
pub fn col<'a, T>(row: &'a [T], col_map: &ColumnMap, name: &str) -> (r: Result<&'a T, XtbError>)
    ensures
        match column_of(col_map@, lower_text(trimmed(name@))) {
            Some(i) => if i < row@.len() {
                r matches Ok(v) && *v == row@[i]
            } else {
                r matches Err(XtbError::MissingCell(n)) && n@ == name@
            },
            None => r matches Err(XtbError::MissingColumn(n)) && n@ == name@,
        },
{
    match column_position(col_map, name) {
        Some(i) => {
            if i < row.len() {
                Ok(&row[i])
            } else {
                Err(XtbError::MissingCell(String::from_str(name)))
            }
        },
        None => Err(XtbError::MissingColumn(String::from_str(name))),
    }
}

pub open spec fn cash_kind_spec(op_type: Seq<char>) -> Option<TransactionKind> {
    if op_type == "Deposit"@ || op_type == "Free funds interest"@ {
        Some(TransactionKind::Deposit)
    } else if op_type == "Stock purchase"@ {
        Some(TransactionKind::Withdraw)
    } else if op_type == "Stock sell"@ {
        Some(TransactionKind::Deposit)
    } else if op_type == "Dividend"@ {
        Some(TransactionKind::Deposit)
    } else if op_type == "Withholding tax"@ {
        Some(TransactionKind::Fee)
    } else if op_type == "Tax IFTT"@ {
        Some(TransactionKind::Fee)
    } else if op_type == "Fractional shares"@ {
        Some(TransactionKind::Deposit)
    } else {
        None
    }
}

/// Kind of the EUR movement of a cash operation type: deposits, interest,
/// dividends, stock sales and fractional-share compensations bring cash
/// in; stock purchases take it out; withholding tax and the French
/// financial transaction tax are fees. `None` for any other type.
pub fn cash_kind_for(op_type: &str) -> (r: Option<TransactionKind>)
    ensures
        r == cash_kind_spec(op_type@),
        r == Some(TransactionKind::Withdraw) <==> op_type@ == "Stock purchase"@,
        op_type@ == "Deposit"@ || op_type@ == "Free funds interest"@ || op_type@ == "Stock sell"@
            || op_type@ == "Dividend"@ || op_type@ == "Fractional shares"@ ==> r == Some(
            TransactionKind::Deposit,
        ),
{
    proof {
        lemma_cash_operation_directions(op_type@);
    }
    if text_eq(op_type, "Deposit") || text_eq(op_type, "Free funds interest") {
        Some(TransactionKind::Deposit)
    } else if text_eq(op_type, "Stock purchase") {
        Some(TransactionKind::Withdraw)
    } else if text_eq(op_type, "Stock sell") {
        Some(TransactionKind::Deposit)
    } else if text_eq(op_type, "Dividend") {
        Some(TransactionKind::Deposit)
    } else if text_eq(op_type, "Withholding tax") {
        Some(TransactionKind::Fee)
    } else if text_eq(op_type, "Tax IFTT") {
        Some(TransactionKind::Fee)
    } else if text_eq(op_type, "Fractional shares") {
        Some(TransactionKind::Deposit)
    } else {
        None
    }
}

/// Rows of the cash operations that are not movements: empty type, the
/// total row, and transfers between XTB sub-accounts ("PEA deposit").
pub open spec fn is_skipped_cash_type(op_type: Seq<char>) -> bool {
    op_type.len() == 0 || op_type == "Total"@ || op_type == "PEA deposit"@
}

/// What a cash operation row becomes: `Ok(None)` for a row that is not a
/// movement, `Ok(Some(kind))` for a movement, and an error for a type
/// that is not handled (a new type in a future export must not be dropped
/// silently).
pub fn cash_operation_kind(op_type: &str) -> (r: Result<Option<TransactionKind>, XtbError>)
    ensures
        is_skipped_cash_type(op_type@) ==> r matches Ok(None),
        !is_skipped_cash_type(op_type@) ==> match cash_kind_spec(op_type@) {
            Some(k) => r matches Ok(Some(k2)) && k2 == k,
            None => r matches Err(XtbError::UnhandledCashType(t)) && t@ == op_type@,
        },
{
    if op_type.is_empty() || text_eq(op_type, "Total") || text_eq(op_type, "PEA deposit") {
        return Ok(None);
    }
    match cash_kind_for(op_type) {
        Some(k) => Ok(Some(k)),
        None => Err(XtbError::UnhandledCashType(String::from_str(op_type))),
    }
}

/// External identifier of a cash operation: `xtb-cash-` and its id.
pub fn cash_external_id(op_id: &str) -> (r: String)
    ensures
        r@ == "xtb-cash-"@ + op_id@,
{
    concat("xtb-cash-", op_id)
}

/// Format of the date-time cells written as text.
pub open spec fn xtb_time_format() -> Seq<char> {
    "%d/%m/%Y %H:%M:%S"@
}

/// A date-time cell written as text (`%d/%m/%Y %H:%M:%S`, UTC), after
/// trimming.
pub fn parse_time_text(raw: &str) -> (r: Result<Timestamp, XtbError>)
    ensures
        match as_timestamp(naive_parse(trimmed(raw@), xtb_time_format())) {
            Some(t) => r == Ok::<Timestamp, XtbError>(t),
            None => r matches Err(XtbError::BadTime(s)) && s@ == raw@,
        },
{
    match parse_naive_utc(trim(raw), "%d/%m/%Y %H:%M:%S") {
        Some(t) => Ok(t),
        None => Err(XtbError::BadTime(String::from_str(raw))),
    }
}

/// The EUR movement of a cash operation of kind `kind`: the signed
/// `amount` as written, its size `magnitude` as quantity and EUR value,
/// at the unit price `unit_price` of a euro; the comment becomes the
/// remark unless it is empty.
pub open spec fn cash_tx_spec<N>(
    kind: TransactionKind,
    amount: N,
    magnitude: N,
    unit_price: N,
    op_id: Seq<char>,
    comment: Seq<char>,
    time: Timestamp,
    source_file: Seq<char>,
) -> TransactionView<N> {
    TransactionView {
        platform: Platform::Xtb,
        account_label: "XTB"@,
        kind,
        asset: crate::schema::AssetView {
            symbol: "EUR"@,
            name: "EUR"@,
            kind: AssetKind::Cash,
            ref_currency: "EUR"@,
            identifiers: crate::schema::AssetIdentifiersView { isin: None, ticker: None },
        },
        quantity: magnitude,
        price: Some(unit_price),
        value_eur: magnitude,
        amount: Some(amount),
        quote_currency: Some("EUR"@),
        time,
        external_id: Some("xtb-cash-"@ + op_id),
        remark: if comment.len() == 0 {
            None
        } else {
            Some(comment)
        },
        source_file,
    }
}

/// See [`cash_tx_spec`].
pub fn cash_transaction<N: Copy>(
    kind: TransactionKind,
    amount: N,
    magnitude: N,
    unit_price: N,
    op_id: &str,
    comment: &str,
    time: Timestamp,
    source_file: &str,
) -> (r: Transaction<N>)
    ensures
        r@ == cash_tx_spec(kind, amount, magnitude, unit_price, op_id@, comment@, time, source_file@),
{
    Transaction {
        platform: Platform::Xtb,
        account_label: String::from_str("XTB"),
        kind,
        asset: Asset {
            symbol: String::from_str("EUR"),
            name: String::from_str("EUR"),
            kind: AssetKind::Cash,
            ref_currency: String::from_str("EUR"),
            identifiers: AssetIdentifiers::none(),
        },
        quantity: magnitude,
        price: Some(unit_price),
        value_eur: magnitude,
        amount: Some(amount),
        quote_currency: Some(String::from_str("EUR")),
        time,
        external_id: Some(cash_external_id(op_id)),
        remark: if comment.is_empty() {
            None
        } else {
            Some(String::from_str(comment))
        },
        source_file: String::from_str(source_file),
    }
}

/// Which way the cash of an XTB operation goes: a stock purchase, and
/// only a stock purchase, takes cash out; deposits, interest, stock
/// sales, dividends and fractional-share compensations bring it in; the
/// two taxes are fees; no other operation type is a movement.
pub proof fn lemma_cash_operation_directions(op_type: Seq<char>)
    ensures
        cash_kind_spec(op_type) == Some(TransactionKind::Withdraw) <==> op_type == "Stock purchase"@,
        op_type == "Deposit"@ || op_type == "Free funds interest"@ || op_type == "Stock sell"@
            || op_type == "Dividend"@ || op_type == "Fractional shares"@ ==> cash_kind_spec(op_type)
            == Some(TransactionKind::Deposit),
        op_type == "Withholding tax"@ || op_type == "Tax IFTT"@ ==> cash_kind_spec(op_type) == Some(
            TransactionKind::Fee,
        ),
        cash_kind_spec(op_type) is Some ==> op_type == "Deposit"@ || op_type == "Free funds interest"@
            || op_type == "Stock purchase"@ || op_type == "Stock sell"@ || op_type == "Dividend"@
            || op_type == "Withholding tax"@ || op_type == "Tax IFTT"@ || op_type == "Fractional shares"@,
{
    reveal_strlit("Deposit");
    reveal_strlit("Free funds interest");
    reveal_strlit("Stock purchase");
    reveal_strlit("Stock sell");
    reveal_strlit("Dividend");
    reveal_strlit("Withholding tax");
    reveal_strlit("Tax IFTT");
    reveal_strlit("Fractional shares");
    if op_type == "Stock purchase"@ {
        assert(op_type.len() == 14);
    }
    if op_type == "Stock sell"@ {
        assert(op_type.len() == 10 && op_type[0] == 'S');
    }
    if op_type == "Dividend"@ {
        assert(op_type.len() == 8);
    }
    if op_type == "Fractional shares"@ {
        assert(op_type.len() == 17 && op_type[0] == 'F');
    }
    if op_type == "Tax IFTT"@ {
        assert(op_type.len() == 8 && op_type[0] == 'T');
    }
    if op_type == "Withholding tax"@ {
        assert(op_type.len() == 15);
    }
}

} // verus!
