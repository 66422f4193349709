//! Parsing rules of the broker exports.
use vstd::prelude::*;

pub mod binance;
pub mod binance_rows;
pub mod legs;
pub mod manual;
pub mod xtb;

verus! {

/// Why a field of an export could not be read.
#[derive(Debug)]
pub enum ParseError {
    /// A column the row must have is missing (its name).
    MissingColumn(String),
    /// A date-time that does not follow the export's format (the text).
    BadTime(String),
    /// An amount without its currency or coin suffix (the text).
    NoSuffix(String),
    /// An amount without its symbol after a space (the text).
    NoSymbol(String),
    /// A trade side other than BUY or SELL (the side, in upper case).
    UnknownSide(String),
    /// A transaction kind that is not one of the five kinds (the text).
    UnknownKind(String),
}

/// A [`ParseError`] with its text as a sequence of characters.
pub enum ParseErrorView {
    MissingColumn(Seq<char>),
    BadTime(Seq<char>),
    NoSuffix(Seq<char>),
    NoSymbol(Seq<char>),
    UnknownSide(Seq<char>),
    UnknownKind(Seq<char>),
}

impl View for ParseError {
    type V = ParseErrorView;

    open spec fn view(&self) -> ParseErrorView {
        match self {
            ParseError::MissingColumn(s) => ParseErrorView::MissingColumn(s@),
            ParseError::BadTime(s) => ParseErrorView::BadTime(s@),
            ParseError::NoSuffix(s) => ParseErrorView::NoSuffix(s@),
            ParseError::NoSymbol(s) => ParseErrorView::NoSymbol(s@),
            ParseError::UnknownSide(s) => ParseErrorView::UnknownSide(s@),
            ParseError::UnknownKind(s) => ParseErrorView::UnknownKind(s@),
        }
    }
}

/// The view of a parsing result.
pub open spec fn parsed<T: View>(r: Result<T, ParseError>) -> Result<T::V, ParseErrorView> {
    match r {
        Ok(v) => Ok(v@),
        Err(e) => Err(e@),
    }
}

} // verus!
