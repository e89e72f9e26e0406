//! The codec adapter: one call surface over the CBOR codec's two readers,
//! with one shape of result and one shape of error.

use vstd::prelude::*;
use crate::hex::{encode, lower_hex};
use crate::mode::ParseMode;

verus! {

/// What `cbor_diag` makes of a text read as hex: the binary encoding of the
/// parsed item with its pretty diagnostic notation, or the error's rendering.
pub uninterp spec fn hex_reading(text: Seq<char>) -> Result<(Seq<u8>, Seq<char>), Seq<char>>;

/// What `cbor_diag` makes of a text read as diagnostic notation, in the same
/// shape as [`hex_reading`].
pub uninterp spec fn diag_reading(text: Seq<char>) -> Result<(Seq<u8>, Seq<char>), Seq<char>>;

/// A reader's result as the codec hands it over.
pub type Reading = Result<(Vec<u8>, String), String>;

/// The mathematical value of a [`Reading`].
pub open spec fn reading_view(reading: Reading) -> Result<(Seq<u8>, Seq<char>), Seq<char>> {
    match reading {
        Ok((bytes, diag)) => Ok((bytes@, diag@)),
        Err(message) => Err(message@),
    }
}

/// Calls `cbor_diag::parse_hex`. An accepted text gives the item's bytes
/// (`DataItem::to_bytes`) and pretty notation (`DataItem::to_diag_pretty`), a
/// rejected one the error in its `Debug` form. Nothing is claimed of the
/// result but that it depends on the text alone.
#[verifier::external_body]
fn read_hex(text: &str) -> (reading: Reading)
    ensures
        reading_view(reading) == hex_reading(text@),
{
    match cbor_diag::parse_hex(text) {
        Ok(item) => Ok((item.to_bytes(), item.to_diag_pretty())),
        Err(error) => Err(format!("{:?}", error)),
    }
}

/// Calls `cbor_diag::parse_diag`, and hands the result over as [`read_hex`]
/// does. Nothing is claimed of it but that it depends on the text alone.
#[verifier::external_body]
fn read_diag(text: &str) -> (reading: Reading)
    ensures
        reading_view(reading) == diag_reading(text@),
{
    match cbor_diag::parse_diag(text) {
        Ok(item) => Ok((item.to_bytes(), item.to_diag_pretty())),
        Err(error) => Err(format!("{:?}", error)),
    }
}

/// The result of a parse, as the page shows it.
#[derive(Debug)]
pub enum ParseOutcome {
    /// The input was accepted.
    Success {
        /// The item in canonical hex.
        hex: String,
        /// The item in pretty diagnostic notation.
        diag: String,
    },
    /// The input was rejected.
    Failure {
        /// The codec's error as printable text.
        message: String,
    },
}

/// The mathematical value of a [`ParseOutcome`].
pub enum Outcome {
    Success { hex: Seq<char>, diag: Seq<char> },
    Failure { message: Seq<char> },
}

impl View for ParseOutcome {
    type V = Outcome;

    open spec fn view(&self) -> Outcome {
        match self {
            ParseOutcome::Success { hex, diag } => Outcome::Success { hex: hex@, diag: diag@ },
            ParseOutcome::Failure { message } => Outcome::Failure { message: message@ },
        }
    }
}

/// The outcome that a reading amounts to: the bytes in canonical hex beside
/// the notation, or the error message.
pub open spec fn outcome_of(reading: Result<(Seq<u8>, Seq<char>), Seq<char>>) -> Outcome {
    match reading {
        Ok((bytes, diag)) => Outcome::Success { hex: lower_hex(bytes), diag },
        Err(message) => Outcome::Failure { message },
    }
}

/// The outcome of parsing `text` in `mode`. `Auto` is the hex outcome where
/// that is a success, and the diagnostic outcome otherwise, so that after two
/// failures the diagnostic reader's message is the one shown.
pub open spec fn parse_outcome(mode: ParseMode, text: Seq<char>) -> Outcome {
    match mode {
        ParseMode::Hex => outcome_of(hex_reading(text)),
        ParseMode::Diag => outcome_of(diag_reading(text)),
        ParseMode::Auto => if hex_reading(text) is Ok {
            outcome_of(hex_reading(text))
        } else {
            outcome_of(diag_reading(text))
        },
    }
}

impl Clone for ParseOutcome {
    fn clone(&self) -> (copy: ParseOutcome)
        ensures
            copy@ == self@,
    {
        match self {
            ParseOutcome::Success { hex, diag } => ParseOutcome::Success {
                hex: hex.clone(),
                diag: diag.clone(),
            },
            ParseOutcome::Failure { message } => ParseOutcome::Failure { message: message.clone() },
        }
    }
}

impl ParseOutcome {
    /// Turns a reader's result into an outcome.
    pub fn from_reading(reading: Reading) -> (outcome: ParseOutcome)
        ensures
            outcome@ == outcome_of(reading_view(reading)),
    {
        match reading {
            Ok((bytes, diag)) => ParseOutcome::Success { hex: encode(bytes.as_slice()), diag },
            Err(message) => ParseOutcome::Failure { message },
        }
    }

    /// Whether the input was accepted.
    pub fn is_success(&self) -> (accepted: bool)
        ensures
            accepted == (self@ is Success),
    {
        match self {
            ParseOutcome::Success { .. } => true,
            ParseOutcome::Failure { .. } => false,
        }
    }
}

/// Parses a hexadecimal byte sequence.
pub fn parse_hex(hex: &str) -> (outcome: ParseOutcome)
    ensures
        outcome@ == parse_outcome(ParseMode::Hex, hex@),
{
    ParseOutcome::from_reading(read_hex(hex))
}

/// Parses diagnostic notation.
pub fn parse_diag(diag: &str) -> (outcome: ParseOutcome)
    ensures
        outcome@ == parse_outcome(ParseMode::Diag, diag@),
{
    ParseOutcome::from_reading(read_diag(diag))
}

/// Parses a text as hex and, where that fails, as diagnostic notation. Where
/// both fail, the message is the diagnostic reader's.
pub fn parse_auto(s: &str) -> (outcome: ParseOutcome)
    ensures
        outcome@ == parse_outcome(ParseMode::Auto, s@),
{
    let first = read_hex(s);
    if first.is_ok() {
        ParseOutcome::from_reading(first)
    } else {
        ParseOutcome::from_reading(read_diag(s))
    }
}

/// Parses `text` in the given mode.
pub fn parse(mode: ParseMode, text: &str) -> (outcome: ParseOutcome)
    ensures
        outcome@ == parse_outcome(mode, text@),
{
    match mode {
        ParseMode::Auto => parse_auto(text),
        ParseMode::Hex => parse_hex(text),
        ParseMode::Diag => parse_diag(text),
    }
}

/// `Auto` accepts a text exactly when hex or diagnostic notation accepts it.
pub proof fn auto_accepts_iff_either(text: Seq<char>)
    ensures
        parse_outcome(ParseMode::Auto, text) is Success <==> (parse_outcome(ParseMode::Hex, text) is Success
            || parse_outcome(ParseMode::Diag, text) is Success),
{
}

/// `Auto` shows what hex shows where hex accepts the text, and otherwise what
/// diagnostic notation shows, its error message included.
pub proof fn auto_prefers_hex(text: Seq<char>)
    ensures
        parse_outcome(ParseMode::Hex, text) is Success ==> parse_outcome(ParseMode::Auto, text)
            == parse_outcome(ParseMode::Hex, text),
        parse_outcome(ParseMode::Hex, text) is Failure ==> parse_outcome(ParseMode::Auto, text)
            == parse_outcome(ParseMode::Diag, text),
{
}

/// Parsing depends on the mode and the text alone: an accepted input always
/// shows its bytes in canonical hex, two lowercase digits for each.
pub proof fn success_shows_canonical_hex(mode: ParseMode, text: Seq<char>)
    ensures
        parse_outcome(mode, text) matches Outcome::Success { hex, .. } ==> exists|bytes: Seq<u8>|
            hex == #[trigger] lower_hex(bytes),
{
    match mode {
        ParseMode::Hex => {
            if let Ok((bytes, _)) = hex_reading(text) {
                assert(parse_outcome(mode, text)->hex == lower_hex(bytes));
            }
        },
        ParseMode::Diag => {
            if let Ok((bytes, _)) = diag_reading(text) {
                assert(parse_outcome(mode, text)->hex == lower_hex(bytes));
            }
        },
        ParseMode::Auto => {
            if let Ok((bytes, _)) = hex_reading(text) {
                assert(parse_outcome(mode, text)->hex == lower_hex(bytes));
            } else if let Ok((bytes, _)) = diag_reading(text) {
                assert(parse_outcome(mode, text)->hex == lower_hex(bytes));
            }
        },
    }
}

} // verus!
