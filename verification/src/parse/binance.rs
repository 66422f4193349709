//! Rules of the Binance exports (spot trade history and converts, CSV):
//! reading fields, amounts and times, naming assets, and the synthetic
//! identifiers that make re-imports idempotent.
use vstd::prelude::*;

use sha2::Digest;

use crate::parse::ParseError;
use crate::schema::{opt_view, Asset, AssetIdentifiers, AssetKind, AssetView, TransactionKind};
use crate::text::{
    chars_of, concat, first_index_of, substring, text_eq, to_upper, trim, trimmed, upper_text,
};
use crate::time::{naive_parse, parse_naive_utc, as_timestamp, Timestamp};

verus! {

/// What `sha2::Sha256::digest` returns for `data` (SHA-256, not restated).
pub uninterp spec fn sha256_digest(data: Seq<u8>) -> Seq<u8>;

/// `sha2::Sha256::digest`: a 32-byte digest, named.
#[verifier::external_body]
fn sha256(data: &[u8]) -> (r: Vec<u8>)
    ensures
        r@ == sha256_digest(data@),
        r@.len() == 32,
{
    sha2::Sha256::digest(data).to_vec()
}

/// Lower-case hexadecimal digit of `n` (0..16).
pub open spec fn hex_digit(n: int) -> char {
    if n < 10 {
        (('0' as int) + n) as char
    } else {
        (('a' as int) + n - 10) as char
    }
}

/// Lower-case hexadecimal text of `bytes`, two digits per byte, high
/// nibble first.
pub open spec fn hex_lower(bytes: Seq<u8>) -> Seq<char>
    decreases bytes.len(),
{
    if bytes.len() == 0 {
        Seq::empty()
    } else {
        seq![hex_digit(bytes[0] as int / 16), hex_digit(bytes[0] as int % 16)] + hex_lower(
            bytes.drop_first(),
        )
    }
}

proof fn lemma_hex_len(bytes: Seq<u8>)
    ensures
        hex_lower(bytes).len() == 2 * bytes.len(),
    decreases bytes.len(),
{
    if bytes.len() > 0 {
        lemma_hex_len(bytes.drop_first());
    }
}

/// `hex::encode`: lower-case hexadecimal, high nibble first.
#[verifier::external_body]
fn hex_encode(data: &[u8]) -> (r: String)
    ensures
        r@ == hex_lower(data@),
{
    hex::encode(data)
}

/// `parts` joined with `sep` between consecutive parts.
pub open spec fn joined(parts: Seq<Seq<char>>, sep: Seq<char>) -> Seq<char>
    decreases parts.len(),
{
    if parts.len() == 0 {
        Seq::empty()
    } else if parts.len() == 1 {
        parts[0]
    } else {
        joined(parts.drop_last(), sep) + sep + parts.last()
    }
}

pub open spec fn strs_view(parts: Seq<&str>) -> Seq<Seq<char>> {
    parts.map_values(|p: &str| p@)
}

/// The synthetic identifier of a row: `prefix`, a dash, and the first 16
/// hexadecimal digits of the SHA-256 of the UTF-8 bytes of `parts` joined
/// with `|`.
pub open spec fn synthetic_id_spec(prefix: Seq<char>, parts: Seq<Seq<char>>) -> Seq<char> {
    prefix + "-"@ + hex_lower(sha256_digest(vstd::utf8::encode_utf8(joined(parts, "|"@)))).take(16)
}

/// See [`synthetic_id_spec`].
pub fn synthetic_id(prefix: &str, parts: &[&str]) -> (r: String)
    ensures
        r@ == synthetic_id_spec(prefix@, strs_view(parts@)),
{
    let ghost pv = strs_view(parts@);
    let mut text = String::new();
    let mut i: usize = 0;
    while i < parts.len()
        invariant
            i <= parts@.len(),
            pv == strs_view(parts@),
            text@ == joined(pv.take(i as int), "|"@),
        decreases parts@.len() - i,
    {
        proof {
            assert(pv.take(i + 1).drop_last() =~= pv.take(i as int));
        }
        if i > 0 {
            text.append("|");
        } else {
            proof {
                assert(text@ =~= Seq::<char>::empty());
            }
        }
        text.append(parts[i]);
        proof {
            assert(pv.take(i + 1).last() == parts@[i as int]@);
            if i == 0 {
                assert(text@ =~= pv.take(1)[0]);
            }
        }
        i = i + 1;
    }
    proof {
        assert(pv.take(parts@.len() as int) =~= pv);
    }
    let digest = sha256(text.as_str().as_bytes());
    id_from_digest(prefix, digest.as_slice())
}

/// A synthetic identifier from the digest of its parts: `prefix`, a
/// dash, and the first 16 hexadecimal digits (lower case) of `digest`.
pub fn id_from_digest(prefix: &str, digest: &[u8]) -> (r: String)
    requires
        digest@.len() >= 8,
    ensures
        r@ == prefix@ + "-"@ + hex_lower(digest@).take(16),
{
    let hex = hex_encode(digest);
    proof {
        lemma_hex_len(digest@);
    }
    let head = substring(hex.as_str(), 0, 16);
    let mut id = concat(prefix, "-");
    id.append(head.as_str());
    id
}

/// Characters of the amount part of a Binance amount (`[0-9.]`).
pub open spec fn is_amount_char(c: char) -> bool {
    ('0' <= c && c <= '9') || c == '.'
}

/// ASCII letters (`[A-Za-z]`).
pub open spec fn is_ascii_letter(c: char) -> bool {
    ('a' <= c && c <= 'z') || ('A' <= c && c <= 'Z')
}

/// `amount` and `unit` split a trimmed Binance amount such as
/// `0.5BTC`: a non-empty run of digits and dots, then a non-empty run of
/// ASCII letters up to the end.
pub open spec fn is_amount_split(text: Seq<char>, amount: Seq<char>, unit: Seq<char>) -> bool {
    &&& amount.len() > 0
    &&& unit.len() > 0
    &&& text == amount + unit
    &&& forall|i: int| 0 <= i < amount.len() ==> is_amount_char(#[trigger] amount[i])
    &&& forall|i: int| 0 <= i < unit.len() ==> is_ascii_letter(#[trigger] unit[i])
}

fn amount_char(c: char) -> (r: bool)
    ensures
        r == is_amount_char(c),
{
    (c >= '0' && c <= '9') || c == '.'
}

fn ascii_letter(c: char) -> (r: bool)
    ensures
        r == is_ascii_letter(c),
{
    (c >= 'a' && c <= 'z') || (c >= 'A' && c <= 'Z')
}

/// Splits a Binance amount such as `" 0.5BTC "` into its amount text and
/// its unit (`("0.5", "BTC")`), after trimming; fails when the trimmed
/// text is not digits and dots followed by letters.
pub fn split_amount(raw: &str) -> (r: Result<(String, String), ParseError>)
    ensures
        match r {
            Ok((amount, unit)) => is_amount_split(trimmed(raw@), amount@, unit@),
            Err(e) => (e matches ParseError::NoSuffix(t) && t@ == raw@) && forall|a: Seq<char>, u: Seq<char>|
                !#[trigger] is_amount_split(trimmed(raw@), a, u),
        },
{
    let t = trim(raw);
    let cs = chars_of(t);
    let mut n: usize = 0;
    while n < cs.len() && amount_char(cs[n])
        invariant
            cs@ == trimmed(raw@),
            n <= cs@.len(),
            forall|i: int| 0 <= i < n ==> is_amount_char(#[trigger] cs@[i]),
        decreases cs@.len() - n,
    {
        n = n + 1;
    }
    let mut ok = n > 0 && n < cs.len();
    let mut k: usize = n;
    while k < cs.len()
        invariant
            cs@ == trimmed(raw@),
            n <= k <= cs@.len(),
            ok ==> forall|i: int| n <= i < k ==> is_ascii_letter(#[trigger] cs@[i]),
            ok ==> n > 0 && n < cs@.len(),
            !ok ==> (n == 0 || n == cs@.len() || exists|i: int| n <= i < k && !is_ascii_letter(#[trigger] cs@[i])),
        decreases cs@.len() - k,
    {
        if !ascii_letter(cs[k]) {
            ok = false;
        }
        k = k + 1;
    }
    if ok {
        let amount = substring(t, 0, n);
        let unit = substring(t, n, cs.len());
        proof {
            assert(amount@ + unit@ =~= trimmed(raw@));
            assert forall|i: int| 0 <= i < unit@.len() implies is_ascii_letter(#[trigger] unit@[i]) by {
                assert(unit@[i] == cs@[n + i]);
            }
        }
        Ok((amount, unit))
    } else {
        proof {
            assert forall|a: Seq<char>, u: Seq<char>| !#[trigger] is_amount_split(trimmed(raw@), a, u) by {
                if is_amount_split(trimmed(raw@), a, u) {
                    let tt = trimmed(raw@);
                    // the run of amount characters ends exactly at a.len()
                    if a.len() < n {
                        assert(tt[a.len() as int] == u[0]);
                        assert(is_amount_char(cs@[a.len() as int]));
                    } else if a.len() > n {
                        if n < cs@.len() {
                            assert(tt[n as int] == a[n as int]);
                        }
                    } else {
                        if exists|i: int| n <= i < k && !is_ascii_letter(#[trigger] cs@[i]) {
                            let i = choose|i: int| n <= i < k && !is_ascii_letter(#[trigger] cs@[i]);
                            assert(tt[i] == u[i - n]);
                        }
                    }
                }
            }
        }
        Err(ParseError::NoSuffix(String::from_str(raw)))
    }
}

/// Splits a convert amount such as `"12.5 USDT"` at its first space,
/// after trimming: the text before it and the text after it.
pub fn split_space_amount(raw: &str) -> (r: Result<(String, String), ParseError>)
    ensures
        match first_index_of(trimmed(raw@), ' ') {
            Some(i) => r matches Ok((amount, symbol)) && amount@ == trimmed(raw@).take(i) && symbol@
                == trimmed(raw@).skip(i + 1),
            None => r matches Err(ParseError::NoSymbol(t)) && t@ == raw@,
        },
{
    let t = trim(raw);
    let cs = chars_of(t);
    let mut i: usize = 0;
    while i < cs.len()
        invariant
            cs@ == trimmed(raw@),
            t@ == trimmed(raw@),
            i <= cs@.len(),
            forall|j: int| 0 <= j < i ==> cs@[j] != ' ',
        decreases cs@.len() - i,
    {
        if cs[i] == ' ' {
            proof {
                let w = choose|w: int|
                    0 <= w < cs@.len() && cs@[w] == ' ' && forall|j: int| 0 <= j < w ==> cs@[j] != ' ';
                assert(w == i) by {
                    if w < i {
                    } else if w > i {
                    }
                }
            }
            let amount = substring(t, 0, i);
            let symbol = substring(t, i + 1, cs.len());
            return Ok((amount, symbol));
        }
        i = i + 1;
    }
    Err(ParseError::NoSymbol(String::from_str(raw)))
}

/// Cash currency that a Binance coin stands for: EUR for euro coins, USD
/// for dollar stablecoins.
pub open spec fn normalize_currency_spec(coin: Seq<char>) -> Option<Seq<char>> {
    if coin == "EUR"@ || coin == "EURI"@ {
        Some("EUR"@)
    } else if coin == "USDC"@ || coin == "USDT"@ {
        Some("USD"@)
    } else {
        None
    }
}

/// See [`normalize_currency_spec`].
pub fn normalize_currency(coin: &str) -> (r: Option<&'static str>)
    ensures
        match r {
            Some(c) => normalize_currency_spec(coin@) == Some(c@),
            None => normalize_currency_spec(coin@) is None,
        },
{
    if text_eq(coin, "EUR") || text_eq(coin, "EURI") {
        Some("EUR")
    } else if text_eq(coin, "USDC") || text_eq(coin, "USDT") {
        Some("USD")
    } else {
        None
    }
}

pub open spec fn asset_kind_spec(symbol: Seq<char>) -> AssetKind {
    if normalize_currency_spec(symbol) is Some {
        AssetKind::Cash
    } else {
        AssetKind::Crypto
    }
}

/// Euro and dollar coins are cash; every other coin is crypto.
pub fn asset_kind_for(symbol: &str) -> (r: AssetKind)
    ensures
        r == asset_kind_spec(symbol@),
{
    if normalize_currency(symbol).is_some() {
        AssetKind::Cash
    } else {
        AssetKind::Crypto
    }
}

/// The asset of a Binance coin: named by its symbol, of the kind of
/// [`asset_kind_for`], referenced in its cash currency (USD for every
/// other coin), with no identifier.
pub open spec fn binance_asset_spec(symbol: Seq<char>) -> AssetView {
    AssetView {
        symbol: symbol,
        name: symbol,
        kind: asset_kind_spec(symbol),
        ref_currency: match normalize_currency_spec(symbol) {
            Some(c) => c,
            None => "USD"@,
        },
        identifiers: crate::schema::AssetIdentifiersView { isin: None, ticker: None },
    }
}

/// See [`binance_asset_spec`].
pub fn binance_asset(symbol: &str) -> (r: Asset)
    ensures
        r@ == binance_asset_spec(symbol@),
{
    let ref_currency = match normalize_currency(symbol) {
        Some(c) => c,
        None => "USD",
    };
    Asset {
        symbol: String::from_str(symbol),
        name: String::from_str(symbol),
        kind: asset_kind_for(symbol),
        ref_currency: String::from_str(ref_currency),
        identifiers: AssetIdentifiers::none(),
    }
}

/// Currency in which a trade is quoted: the cash currency of the quote
/// coin, or the coin itself.
pub fn quote_currency(quote_symbol: &str) -> (r: String)
    ensures
        r@ == match normalize_currency_spec(quote_symbol@) {
            Some(c) => c,
            None => quote_symbol@,
        },
{
    match normalize_currency(quote_symbol) {
        Some(c) => String::from_str(c),
        None => String::from_str(quote_symbol),
    }
}

/// Kind of a trade from its side in upper case: BUY or SELL.
pub fn side_kind(side_upper: &str) -> (r: Result<TransactionKind, ParseError>)
    ensures
        side_upper@ == "BUY"@ ==> r == Ok::<TransactionKind, ParseError>(TransactionKind::Buy),
        side_upper@ == "SELL"@ ==> r == Ok::<TransactionKind, ParseError>(TransactionKind::Sell),
        side_upper@ != "BUY"@ && side_upper@ != "SELL"@ ==> (r matches Err(ParseError::UnknownSide(s))
            && s@ == side_upper@),
{
    proof {
        reveal_strlit("BUY");
        reveal_strlit("SELL");
        assert("BUY"@.len() != "SELL"@.len());
    }
    if text_eq(side_upper, "BUY") {
        Ok(TransactionKind::Buy)
    } else if text_eq(side_upper, "SELL") {
        Ok(TransactionKind::Sell)
    } else {
        Err(ParseError::UnknownSide(String::from_str(side_upper)))
    }
}

/// Kind of a trade from its side, in any case: BUY or SELL.
pub fn trade_kind(side: &str) -> (r: Result<TransactionKind, ParseError>)
    ensures
        upper_text(side@) == "BUY"@ ==> r == Ok::<TransactionKind, ParseError>(TransactionKind::Buy),
        upper_text(side@) == "SELL"@ ==> r == Ok::<TransactionKind, ParseError>(TransactionKind::Sell),
        upper_text(side@) != "BUY"@ && upper_text(side@) != "SELL"@ ==> (r matches Err(
            ParseError::UnknownSide(s),
        ) && s@ == upper_text(side@)),
{
    let up = to_upper(side);
    side_kind(up.as_str())
}

/// Format of the times of the Binance exports.
pub open spec fn binance_time_format() -> Seq<char> {
    "%Y-%m-%d %H:%M:%S"@
}

/// A time of the Binance exports (`%Y-%m-%d %H:%M:%S`, UTC).
pub fn parse_time(raw: &str) -> (r: Result<Timestamp, ParseError>)
    ensures
        match as_timestamp(naive_parse(raw@, binance_time_format())) {
            Some(t) => r == Ok::<Timestamp, ParseError>(t),
            None => r matches Err(ParseError::BadTime(s)) && s@ == raw@,
        },
{
    match parse_naive_utc(raw, "%Y-%m-%d %H:%M:%S") {
        Some(t) => Ok(t),
        None => Err(ParseError::BadTime(String::from_str(raw))),
    }
}

/// The value of column `key` in a CSV row given as `(header, value)`
/// pairs: that of the last pair with this header.
pub open spec fn field_index(row: Seq<(String, String)>, key: Seq<char>) -> Option<int> {
    if exists|i: int| 0 <= i < row.len() && row[i].0@ == key {
        Some(choose|i: int| 0 <= i < row.len() && row[i].0@ == key && forall|j: int| i < j < row.len() ==> row[j].0@ != key)
    } else {
        None
    }
}

/// See [`field_index`]; a missing column is an error naming it.
pub fn field<'a>(row: &'a [(String, String)], key: &str) -> (r: Result<&'a str, ParseError>)
    ensures
        match field_index(row@, key@) {
            Some(i) => r matches Ok(v) && v@ == row@[i].1@,
            None => r matches Err(ParseError::MissingColumn(k)) && k@ == key@,
        },
{
    let target = key.to_owned();
    let mut i: usize = row.len();
    while i > 0
        invariant
            target@ == key@,
            i <= row@.len(),
            forall|j: int| i <= j < row@.len() ==> row@[j].0@ != key@,
        decreases i,
    {
        if row[i - 1].0 == target {
            proof {
                let w = choose|w: int|
                    0 <= w < row@.len() && row@[w].0@ == key@ && forall|j: int| w < j < row@.len() ==> row@[j].0@ != key@;
                assert(w == i - 1) by {
                    if w < i - 1 {
                    } else if w > i - 1 {
                    }
                }
            }
            return Ok(row[i - 1].1.as_str());
        }
        i = i - 1;
    }
    Err(ParseError::MissingColumn(String::from_str(key)))
}

} // verus!
