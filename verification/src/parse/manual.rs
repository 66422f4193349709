//! Rules of the manual transactions file (JSON), which fills the gaps
//! that the broker exports leave (untracked on-chain movements...).
use vstd::prelude::*;

use crate::parse::binance::{synthetic_id, synthetic_id_spec};
use crate::parse::{ParseError, ParseErrorView};
use crate::schema::{
    copy_opt, opt_view, Asset, AssetIdentifiers, AssetIdentifiersView, AssetKind, AssetView,
    Platform, Transaction, TransactionKind, TransactionView,
};
use crate::text::{chars_of, concat, substring, text_eq};
use crate::time::{as_timestamp, parse_rfc3339_utc, rfc3339_parse, Timestamp};

verus! {

pub open spec fn kind_spec(s: Seq<char>) -> Option<TransactionKind> {
    if s == "Buy"@ {
        Some(TransactionKind::Buy)
    } else if s == "Sell"@ {
        Some(TransactionKind::Sell)
    } else if s == "Fee"@ {
        Some(TransactionKind::Fee)
    } else if s == "Deposit"@ {
        Some(TransactionKind::Deposit)
    } else if s == "Withdraw"@ {
        Some(TransactionKind::Withdraw)
    } else {
        None
    }
}

/// A transaction kind from its exact name (`Buy`, `Sell`, `Fee`,
/// `Deposit`, `Withdraw`).
pub fn kind_from_str(s: &str) -> (r: Result<TransactionKind, ParseError>)
    ensures
        match kind_spec(s@) {
            Some(k) => r == Ok::<TransactionKind, ParseError>(k),
            None => r matches Err(ParseError::UnknownKind(t)) && t@ == s@,
        },
        forall|k: TransactionKind| s@ == #[trigger] k.name() ==> r == Ok::<TransactionKind, ParseError>(k),
{
    proof {
        assert forall|k: TransactionKind| s@ == #[trigger] k.name() implies kind_spec(s@) == Some(k) by {
            lemma_kind_names_read_back(k);
        }
    }
    if text_eq(s, "Buy") {
        Ok(TransactionKind::Buy)
    } else if text_eq(s, "Sell") {
        Ok(TransactionKind::Sell)
    } else if text_eq(s, "Fee") {
        Ok(TransactionKind::Fee)
    } else if text_eq(s, "Deposit") {
        Ok(TransactionKind::Deposit)
    } else if text_eq(s, "Withdraw") {
        Ok(TransactionKind::Withdraw)
    } else {
        Err(ParseError::UnknownKind(String::from_str(s)))
    }
}

/// `s` with every `Z` replaced by `+00:00`.
pub open spec fn z_as_offset(s: Seq<char>) -> Seq<char>
    decreases s.len(),
{
    if s.len() == 0 {
        Seq::empty()
    } else {
        z_as_offset(s.drop_last()) + if s.last() == 'Z' {
            "+00:00"@
        } else {
            seq![s.last()]
        }
    }
}

/// A time of the manual file: RFC 3339, with `Z` accepted for UTC
/// (every `Z` is read as `+00:00`).
pub fn parse_time(raw: &str) -> (r: Result<Timestamp, ParseError>)
    ensures
        match as_timestamp(rfc3339_parse(z_as_offset(raw@))) {
            Some(t) => r == Ok::<Timestamp, ParseError>(t),
            None => r matches Err(ParseError::BadTime(s)) && s@ == raw@,
        },
{
    let cs = chars_of(raw);
    let mut out = String::new();
    let mut i: usize = 0;
    proof {
        assert(raw@.take(0) =~= Seq::<char>::empty());
    }
    while i < cs.len()
        invariant
            cs@ == raw@,
            i <= cs@.len(),
            out@ == z_as_offset(raw@.take(i as int)),
        decreases cs@.len() - i,
    {
        proof {
            assert(raw@.take(i + 1).drop_last() =~= raw@.take(i as int));
            assert(raw@.take(i + 1).last() == cs@[i as int]);
        }
        if cs[i] == 'Z' {
            out.append("+00:00");
        } else {
            let piece = substring(raw, i, i + 1);
            proof {
                assert(piece@ =~= seq![cs@[i as int]]);
            }
            out.append(piece.as_str());
        }
        i = i + 1;
    }
    proof {
        assert(raw@.take(cs@.len() as int) =~= raw@);
    }
    match parse_rfc3339_utc(out.as_str()) {
        Some(t) => Ok(t),
        None => Err(ParseError::BadTime(String::from_str(raw))),
    }
}

/// The external identifier of a manual entry: `manual-` and its id.
pub fn manual_external_id(raw_id: &str) -> (r: String)
    ensures
        r@ == "manual-"@ + raw_id@,
{
    concat("manual-", raw_id)
}

/// An entry of the manual file, as its fields were found there (`None`
/// for an absent field or one of another type).
pub struct ManualEntry<N> {
    pub asset: Option<String>,
    pub id: Option<String>,
    /// The whole entry written as compact JSON: it identifies an entry
    /// that has no `id`.
    pub canonical: String,
    pub kind: Option<String>,
    pub account_label: Option<String>,
    pub quantity: Option<N>,
    pub price: Option<N>,
    pub value_eur: Option<N>,
    pub amount: Option<N>,
    pub quote_currency: Option<String>,
    pub time: Option<String>,
    pub remark: Option<String>,
}

/// The identifier of an entry: its `id`, or a synthetic one made from
/// its text.
pub open spec fn manual_id_spec<N>(e: &ManualEntry<N>) -> Seq<char> {
    match opt_view(e.id) {
        Some(i) => i,
        None => synthetic_id_spec("manual-auto"@, seq![e.canonical@]),
    }
}

/// How an entry becomes a transaction of a crypto asset valued in EUR.
/// Checked in this order, the first failure being the entry's error:
/// `asset` present, `kind` present and one of the five kinds, `quantity`,
/// `value_eur` and `time` present, `time` readable. The account defaults
/// to `Manuel`.
pub open spec fn manual_spec<N>(e: &ManualEntry<N>, source_file: Seq<char>) -> Result<TransactionView<N>, ParseErrorView> {
    match opt_view(e.asset) {
        None => Err(ParseErrorView::MissingColumn("asset"@)),
        Some(symbol) => match opt_view(e.kind) {
            None => Err(ParseErrorView::MissingColumn("kind"@)),
            Some(k) => match kind_spec(k) {
                None => Err(ParseErrorView::UnknownKind(k)),
                Some(kind) => match e.quantity {
                    None => Err(ParseErrorView::MissingColumn("quantity"@)),
                    Some(quantity) => match e.value_eur {
                        None => Err(ParseErrorView::MissingColumn("value_eur"@)),
                        Some(value_eur) => match opt_view(e.time) {
                            None => Err(ParseErrorView::MissingColumn("time"@)),
                            Some(t) => match as_timestamp(rfc3339_parse(z_as_offset(t))) {
                                None => Err(ParseErrorView::BadTime(t)),
                                Some(time) => Ok(
                                    TransactionView {
                                        platform: Platform::Manual,
                                        account_label: match opt_view(e.account_label) {
                                            Some(l) => l,
                                            None => "Manuel"@,
                                        },
                                        kind,
                                        asset: AssetView {
                                            symbol,
                                            name: symbol,
                                            kind: AssetKind::Crypto,
                                            ref_currency: "EUR"@,
                                            identifiers: AssetIdentifiersView { isin: None, ticker: None },
                                        },
                                        quantity,
                                        price: e.price,
                                        value_eur,
                                        amount: e.amount,
                                        quote_currency: opt_view(e.quote_currency),
                                        time,
                                        external_id: Some("manual-"@ + manual_id_spec(e)),
                                        remark: opt_view(e.remark),
                                        source_file,
                                    },
                                ),
                            },
                        },
                    },
                },
            },
        },
    }
}

fn manual_id<N>(e: &ManualEntry<N>) -> (r: String)
    ensures
        r@ == manual_id_spec(e),
{
    match &e.id {
        Some(i) => i.clone(),
        None => {
            let parts = vec![e.canonical.as_str()];
            proof {
                assert(crate::parse::binance::strs_view(parts@) =~= seq![e.canonical@]);
            }
            synthetic_id("manual-auto", parts.as_slice())
        },
    }
}

/// See [`manual_spec`].
pub fn manual_transaction<N: Copy>(e: &ManualEntry<N>, source_file: &str) -> (r: Result<Transaction<N>, ParseError>)
    ensures
        match r {
            Ok(t) => manual_spec(e, source_file@) == Ok::<TransactionView<N>, ParseErrorView>(t@),
            Err(err) => manual_spec(e, source_file@) == Err::<TransactionView<N>, ParseErrorView>(err@),
        },
{
    let symbol = match &e.asset {
        Some(s) => s,
        None => return Err(ParseError::MissingColumn(String::from_str("asset"))),
    };
    let raw_id = manual_id(e);
    let kind_text = match &e.kind {
        Some(k) => k,
        None => return Err(ParseError::MissingColumn(String::from_str("kind"))),
    };
    let kind = match kind_from_str(kind_text.as_str()) {
        Ok(k) => k,
        Err(err) => return Err(err),
    };
    let quantity = match e.quantity {
        Some(q) => q,
        None => return Err(ParseError::MissingColumn(String::from_str("quantity"))),
    };
    let value_eur = match e.value_eur {
        Some(v) => v,
        None => return Err(ParseError::MissingColumn(String::from_str("value_eur"))),
    };
    let time_text = match &e.time {
        Some(t) => t,
        None => return Err(ParseError::MissingColumn(String::from_str("time"))),
    };
    let time = match parse_time(time_text.as_str()) {
        Ok(t) => t,
        Err(err) => return Err(err),
    };
    let account_label = match &e.account_label {
        Some(l) => l.clone(),
        None => String::from_str("Manuel"),
    };
    Ok(Transaction {
        platform: Platform::Manual,
        account_label,
        kind,
        asset: Asset {
            symbol: symbol.clone(),
            name: symbol.clone(),
            kind: AssetKind::Crypto,
            ref_currency: String::from_str("EUR"),
            identifiers: AssetIdentifiers::none(),
        },
        quantity,
        price: e.price,
        value_eur,
        amount: e.amount,
        quote_currency: copy_opt(&e.quote_currency),
        time,
        external_id: Some(manual_external_id(raw_id.as_str())),
        remark: copy_opt(&e.remark),
        source_file: String::from_str(source_file),
    })
}

/// Reading a kind's own name gives that kind back, for every kind, and
/// nothing but its own name reads as it (so distinct names give distinct
/// kinds).
pub proof fn lemma_kind_names_read_back(k: TransactionKind)
    ensures
        kind_spec(k.name()) == Some(k),
        forall|s: Seq<char>| #[trigger] kind_spec(s) == Some(k) ==> s == k.name(),
{
    reveal_strlit("Buy");
    reveal_strlit("Sell");
    reveal_strlit("Fee");
    reveal_strlit("Deposit");
    reveal_strlit("Withdraw");
    match k {
        TransactionKind::Buy => {},
        TransactionKind::Sell => {
            assert(k.name()[0] == 'S');
        },
        TransactionKind::Fee => {
            assert(k.name()[0] == 'F');
        },
        TransactionKind::Deposit => {
            assert(k.name().len() == 7);
        },
        TransactionKind::Withdraw => {
            assert(k.name().len() == 8);
        },
    }
}

} // verus!
