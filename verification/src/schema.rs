//! Core types: platforms, transaction kinds, asset kinds, assets and
//! transactions.
use vstd::prelude::*;

use crate::time::Timestamp;

verus! {

/// Where a transaction was recorded.
#[derive(Debug, Clone, Copy, PartialEq, Eq, Hash, Structural)]
pub enum Platform {
    Binance,
    Xtb,
    Manual,
}

impl Platform {
    pub open spec fn name(self) -> Seq<char> {
        match self {
            Platform::Binance => "Binance"@,
            Platform::Xtb => "Xtb"@,
            Platform::Manual => "Manual"@,
        }
    }

    /// The platform's name as written in exports.
    pub fn as_str(&self) -> (s: &'static str)
        ensures
            s@ == self.name(),
    {
        match self {
            Platform::Binance => "Binance",
            Platform::Xtb => "Xtb",
            Platform::Manual => "Manual",
        }
    }
}

/// What a transaction does to the holding of its asset.
#[derive(Debug, Clone, Copy, PartialEq, Eq, Hash, Structural)]
pub enum TransactionKind {
    Buy,
    Sell,
    Fee,
    Deposit,
    Withdraw,
}

impl TransactionKind {
    pub open spec fn name(self) -> Seq<char> {
        match self {
            TransactionKind::Buy => "Buy"@,
            TransactionKind::Sell => "Sell"@,
            TransactionKind::Fee => "Fee"@,
            TransactionKind::Deposit => "Deposit"@,
            TransactionKind::Withdraw => "Withdraw"@,
        }
    }

    /// The kind's name as written in exports.
    pub fn as_str(&self) -> (s: &'static str)
        ensures
            s@ == self.name(),
    {
        match self {
            TransactionKind::Buy => "Buy",
            TransactionKind::Sell => "Sell",
            TransactionKind::Fee => "Fee",
            TransactionKind::Deposit => "Deposit",
            TransactionKind::Withdraw => "Withdraw",
        }
    }
}

/// Nature of an asset.
#[derive(Debug, Clone, Copy, PartialEq, Eq, Hash, Structural)]
pub enum AssetKind {
    Cash,
    Crypto,
    Stock,
}

impl AssetKind {
    pub open spec fn name(self) -> Seq<char> {
        match self {
            AssetKind::Cash => "Cash"@,
            AssetKind::Crypto => "Crypto"@,
            AssetKind::Stock => "Stock"@,
        }
    }

    /// The kind's name as written in exports.
    pub fn as_str(&self) -> (s: &'static str)
        ensures
            s@ == self.name(),
    {
        match self {
            AssetKind::Cash => "Cash",
            AssetKind::Crypto => "Crypto",
            AssetKind::Stock => "Stock",
        }
    }
}

/// Optional external identifiers of an asset (ISIN, ticker...).
#[derive(Debug)]
pub struct AssetIdentifiers {
    pub isin: Option<String>,
    pub ticker: Option<String>,
}

/// Abstract value of [`AssetIdentifiers`].
pub struct AssetIdentifiersView {
    pub isin: Option<Seq<char>>,
    pub ticker: Option<Seq<char>>,
}

pub open spec fn opt_view(s: Option<String>) -> Option<Seq<char>> {
    match s {
        Some(v) => Some(v@),
        None => None,
    }
}

/// A copy of an optional string.
pub fn copy_opt(s: &Option<String>) -> (r: Option<String>)
    ensures
        opt_view(r) == opt_view(*s),
{
    match s {
        Some(v) => Some(v.clone()),
        None => None,
    }
}

impl View for AssetIdentifiers {
    type V = AssetIdentifiersView;

    open spec fn view(&self) -> AssetIdentifiersView {
        AssetIdentifiersView { isin: opt_view(self.isin), ticker: opt_view(self.ticker) }
    }
}

impl AssetIdentifiers {
    /// No identifier known.
    pub fn none() -> (r: AssetIdentifiers)
        ensures
            r@.isin is None,
            r@.ticker is None,
    {
        AssetIdentifiers { isin: None, ticker: None }
    }

    /// A copy with the same identifiers.
    pub fn copy(&self) -> (r: AssetIdentifiers)
        ensures
            r@ == self@,
    {
        AssetIdentifiers { isin: copy_opt(&self.isin), ticker: copy_opt(&self.ticker) }
    }
}

impl Default for AssetIdentifiers {
    fn default() -> (r: AssetIdentifiers)
        ensures
            r@.isin is None,
            r@.ticker is None,
    {
        AssetIdentifiers { isin: None, ticker: None }
    }
}

/// An asset, identified by its symbol.
#[derive(Debug)]
pub struct Asset {
    pub symbol: String,
    pub name: String,
    pub kind: AssetKind,
    pub ref_currency: String,
    pub identifiers: AssetIdentifiers,
}

/// Abstract value of an [`Asset`].
pub struct AssetView {
    pub symbol: Seq<char>,
    pub name: Seq<char>,
    pub kind: AssetKind,
    pub ref_currency: Seq<char>,
    pub identifiers: AssetIdentifiersView,
}

impl View for Asset {
    type V = AssetView;

    open spec fn view(&self) -> AssetView {
        AssetView {
            symbol: self.symbol@,
            name: self.name@,
            kind: self.kind,
            ref_currency: self.ref_currency@,
            identifiers: self.identifiers@,
        }
    }
}

impl Asset {
    /// A copy with the same fields.
    pub fn copy(&self) -> (r: Asset)
        ensures
            r@ == self@,
    {
        Asset {
            symbol: self.symbol.clone(),
            name: self.name.clone(),
            kind: self.kind,
            ref_currency: self.ref_currency.clone(),
            identifiers: self.identifiers.copy(),
        }
    }
}

/// One movement of one asset. The amounts (`quantity`, `price`,
/// `value_eur`, `amount`) are of the caller's numeric type `N`;
/// `value_eur` is the authoritative EUR value of the movement.
#[derive(Debug)]
pub struct Transaction<N> {
    pub platform: Platform,
    pub account_label: String,
    pub kind: TransactionKind,
    pub asset: Asset,
    pub quantity: N,
    pub price: Option<N>,
    pub value_eur: N,
    pub amount: Option<N>,
    pub quote_currency: Option<String>,
    pub time: Timestamp,
    pub external_id: Option<String>,
    pub remark: Option<String>,
    pub source_file: String,
}

/// Abstract value of a [`Transaction`].
pub struct TransactionView<N> {
    pub platform: Platform,
    pub account_label: Seq<char>,
    pub kind: TransactionKind,
    pub asset: AssetView,
    pub quantity: N,
    pub price: Option<N>,
    pub value_eur: N,
    pub amount: Option<N>,
    pub quote_currency: Option<Seq<char>>,
    pub time: Timestamp,
    pub external_id: Option<Seq<char>>,
    pub remark: Option<Seq<char>>,
    pub source_file: Seq<char>,
}

impl<N> View for Transaction<N> {
    type V = TransactionView<N>;

    open spec fn view(&self) -> TransactionView<N> {
        TransactionView {
            platform: self.platform,
            account_label: self.account_label@,
            kind: self.kind,
            asset: self.asset@,
            quantity: self.quantity,
            price: self.price,
            value_eur: self.value_eur,
            amount: self.amount,
            quote_currency: opt_view(self.quote_currency),
            time: self.time,
            external_id: opt_view(self.external_id),
            remark: opt_view(self.remark),
            source_file: self.source_file@,
        }
    }
}

impl<N> TransactionView<N> {
    /// The same transaction, carrying `asset` instead of its own.
    pub open spec fn with_asset(self, asset: AssetView) -> TransactionView<N> {
        TransactionView {
            platform: self.platform,
            account_label: self.account_label,
            kind: self.kind,
            asset: asset,
            quantity: self.quantity,
            price: self.price,
            value_eur: self.value_eur,
            amount: self.amount,
            quote_currency: self.quote_currency,
            time: self.time,
            external_id: self.external_id,
            remark: self.remark,
            source_file: self.source_file,
        }
    }
}

pub open spec fn transactions_view<N>(v: Seq<Transaction<N>>) -> Seq<TransactionView<N>> {
    v.map_values(|t: Transaction<N>| t@)
}

} // verus!
