//! Errors of the text formats.

use crate::text::{FloatErrorKind, IntErrorKind};
use vstd::prelude::*;

verus! {

/// Errors that can occur while parsing the text of beatmap lines.
#[derive(Debug, Clone, PartialEq, Eq)]
pub enum ParseError {
    /// A colour line has no ` : ` separator.
    MissingColorComponent,
    /// A field is not an integer of its type.
    ParseInt(IntErrorKind),
    /// A field is not a floating-point number.
    ParseFloat(FloatErrorKind),
    /// The `SampleSet` key names no sample set.
    InvalidSampleSetString(String),
    /// The `Mode` key is not 0, 1, 2 or 3.
    InvalidGameMode(u8),
    /// The `GridSize` key is not 4, 8, 16 or 32.
    InvalidGridSize(u8),
    /// The type bits of a hit object name no object.
    InvalidObjectType(i32),
    /// The curve letter of a slider is not `L`, `B`, `C` or `P`.
    InvalidSliderType(String),
}

/// A parse error, as a specification.
pub enum ParseErrorView {
    MissingColorComponent,
    ParseInt(IntErrorKind),
    ParseFloat(FloatErrorKind),
    InvalidSampleSetString(Seq<char>),
    InvalidGameMode(u8),
    InvalidGridSize(u8),
    InvalidObjectType(i32),
    InvalidSliderType(Seq<char>),
}

impl ParseError {
    /// The error as a specification.
    pub open spec fn view(&self) -> ParseErrorView {
        match self {
            ParseError::MissingColorComponent => ParseErrorView::MissingColorComponent,
            ParseError::ParseInt(k) => ParseErrorView::ParseInt(*k),
            ParseError::ParseFloat(k) => ParseErrorView::ParseFloat(*k),
            ParseError::InvalidSampleSetString(s) => ParseErrorView::InvalidSampleSetString(s@),
            ParseError::InvalidGameMode(m) => ParseErrorView::InvalidGameMode(*m),
            ParseError::InvalidGridSize(g) => ParseErrorView::InvalidGridSize(*g),
            ParseError::InvalidObjectType(t) => ParseErrorView::InvalidObjectType(*t),
            ParseError::InvalidSliderType(s) => ParseErrorView::InvalidSliderType(s@),
        }
    }
}

/// How parsing a piece of text can go wrong: with an error, or on text that
/// lacks a field the format takes for granted (too few separators, a number
/// outside the values of an enumeration or bit set).
pub enum Fault {
    /// Parsing fails with this error.
    Failed(ParseErrorView),
    /// The text lacks something the format takes for granted.
    Malformed,
}

/// How parsing a piece of text went wrong, as returned.
#[derive(Debug)]
pub enum LineFault {
    /// Parsing failed with this error.
    Failed(ParseError),
    /// The text lacks something the format takes for granted.
    Malformed,
}

impl LineFault {
    /// The failure as a specification.
    pub open spec fn view(&self) -> Fault {
        match self {
            LineFault::Failed(e) => Fault::Failed(e.view()),
            LineFault::Malformed => Fault::Malformed,
        }
    }
}

/// The failure of reading an integer field.
pub open spec fn int_fault(k: IntErrorKind) -> Fault {
    Fault::Failed(ParseErrorView::ParseInt(k))
}

/// The failure of reading a floating-point field.
pub open spec fn float_fault(k: FloatErrorKind) -> Fault {
    Fault::Failed(ParseErrorView::ParseFloat(k))
}

} // verus!
