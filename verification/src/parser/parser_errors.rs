//! What can go wrong when reading source.

use vstd::prelude::*;
use vstd::string::StringExecFns;
use crate::number::{nat_text, number_chars};
use crate::text::from_chars;

verus! {

/// Errors of the parser itself.
#[derive(Debug, Clone, Copy, PartialEq, Eq, Structural)]
pub enum LanguageError {
    IncompatibleLanguageVersion,
    LanguageNotInitialized,
}

impl LanguageError {
    /// The message of the error.
    pub open spec fn message(self) -> Seq<char> {
        match self {
            LanguageError::IncompatibleLanguageVersion => "Tree-sitter language version is incompatible with parser"@,
            LanguageError::LanguageNotInitialized => "Parser was not initialized with the language"@,
        }
    }

    /// The message of the error.
    pub fn to_string(&self) -> (r: String)
        ensures
            r@ == self.message(),
    {
        match self {
            LanguageError::IncompatibleLanguageVersion => String::from_str(
                "Tree-sitter language version is incompatible with parser",
            ),
            LanguageError::LanguageNotInitialized => String::from_str(
                "Parser was not initialized with the language",
            ),
        }
    }
}

/// Errors of reading a value.
#[derive(Debug, Clone, PartialEq)]
pub enum ValueParseError {
    UnknownValueKind,
    MissingValue,
    MissingParseMethod,
    InvalidBoolean(String),
    InvalidInteger(String),
    InvalidFloat(String),
    InvalidCurrencyFormat { source: String, parts_count: usize },
    InvalidCurrencyAmount(String),
    InvalidCurrencyCode(String),
    InvalidReferenceFormat { source: String, parts_count: usize },
    InvalidDate(String),
    InvalidDateTime(String),
    InvalidTimezone(String),
    HeterogeneousList { expected_type: String, found_type: String, index: usize },
}

/// An error of reading a value, its texts as character sequences.
pub enum ParseErrorModel {
    UnknownValueKind,
    MissingValue,
    MissingParseMethod,
    InvalidBoolean(Seq<char>),
    InvalidInteger(Seq<char>),
    InvalidFloat(Seq<char>),
    InvalidCurrencyFormat { source: Seq<char>, parts_count: usize },
    InvalidCurrencyAmount(Seq<char>),
    InvalidCurrencyCode(Seq<char>),
    InvalidReferenceFormat { source: Seq<char>, parts_count: usize },
    InvalidDate(Seq<char>),
    InvalidDateTime(Seq<char>),
    InvalidTimezone(Seq<char>),
    HeterogeneousList { expected_type: Seq<char>, found_type: Seq<char>, index: usize },
}

impl View for ValueParseError {
    type V = ParseErrorModel;

    open spec fn view(&self) -> ParseErrorModel {
        match *self {
            ValueParseError::UnknownValueKind => ParseErrorModel::UnknownValueKind,
            ValueParseError::MissingValue => ParseErrorModel::MissingValue,
            ValueParseError::MissingParseMethod => ParseErrorModel::MissingParseMethod,
            ValueParseError::InvalidBoolean(text) => ParseErrorModel::InvalidBoolean(text@),
            ValueParseError::InvalidInteger(text) => ParseErrorModel::InvalidInteger(text@),
            ValueParseError::InvalidFloat(text) => ParseErrorModel::InvalidFloat(text@),
            ValueParseError::InvalidCurrencyFormat { source, parts_count } => {
                ParseErrorModel::InvalidCurrencyFormat { source: source@, parts_count }
            },
            ValueParseError::InvalidCurrencyAmount(text) => ParseErrorModel::InvalidCurrencyAmount(
                text@,
            ),
            ValueParseError::InvalidCurrencyCode(text) => ParseErrorModel::InvalidCurrencyCode(
                text@,
            ),
            ValueParseError::InvalidReferenceFormat { source, parts_count } => {
                ParseErrorModel::InvalidReferenceFormat { source: source@, parts_count }
            },
            ValueParseError::InvalidDate(text) => ParseErrorModel::InvalidDate(text@),
            ValueParseError::InvalidDateTime(text) => ParseErrorModel::InvalidDateTime(text@),
            ValueParseError::InvalidTimezone(text) => ParseErrorModel::InvalidTimezone(text@),
            ValueParseError::HeterogeneousList { expected_type, found_type, index } => {
                ParseErrorModel::HeterogeneousList {
                    expected_type: expected_type@,
                    found_type: found_type@,
                    index,
                }
            },
        }
    }
}

/// The message of an error of reading a value.
pub open spec fn parse_error_message(error: ParseErrorModel) -> Seq<char> {
    match error {
        ParseErrorModel::UnknownValueKind => "Value type could not be determined from tree-sitter node"@,
        ParseErrorModel::MissingValue => "Field is missing its value assignment"@,
        ParseErrorModel::MissingParseMethod => "No parsing method implemented for this value type"@,
        ParseErrorModel::InvalidBoolean(text) => "Boolean value could not be parsed: '"@ + text
            + "'"@,
        ParseErrorModel::InvalidInteger(text) => "Integer value could not be parsed: '"@ + text
            + "'"@,
        ParseErrorModel::InvalidFloat(text) => "Float value could not be parsed: '"@ + text + "'"@,
        ParseErrorModel::InvalidCurrencyFormat { source, parts_count } => "Currency format is invalid (expected 'amount currency'): '"@
            + source + "' has "@ + nat_text(parts_count as nat) + " part(s)"@,
        ParseErrorModel::InvalidCurrencyAmount(text) => "Currency amount could not be parsed as decimal: '"@
            + text + "'"@,
        ParseErrorModel::InvalidCurrencyCode(text) => "Currency code is not recognized: '"@ + text
            + "'"@,
        ParseErrorModel::InvalidReferenceFormat { source, parts_count } => "Reference format is invalid (expected 2 or 3 dot-separated parts): '"@
            + source + "' has "@ + nat_text(parts_count as nat) + " part(s)"@,
        ParseErrorModel::InvalidDate(text) => "Date value could not be parsed: '"@ + text + "'"@,
        ParseErrorModel::InvalidDateTime(text) => "DateTime value could not be parsed: '"@ + text
            + "'"@,
        ParseErrorModel::InvalidTimezone(text) => "Timezone offset could not be parsed: '"@ + text
            + "'"@,
        ParseErrorModel::HeterogeneousList { expected_type, found_type, index } => "List contains values of different types (but must be homogeneous): expected "@
            + expected_type + ", found "@ + found_type + " at index "@ + nat_text(index as nat),
    }
}

/// Writes a text between a start and a closing quote.
fn quoted(start: &str, text: &str) -> (r: String)
    ensures
        r@ == start@ + text@ + "'"@,
{
    let mut message = String::from_str(start);
    message.append(text);
    message.append("'");
    message
}

/// Writes the message for a text with a wrong number of parts.
fn counted(start: &str, source: &str, parts_count: usize) -> (r: String)
    ensures
        r@ == start@ + source@ + "' has "@ + nat_text(parts_count as nat) + " part(s)"@,
{
    let mut message = String::from_str(start);
    message.append(source);
    message.append("' has ");
    message.append(from_chars(&number_chars(parts_count)).as_str());
    message.append(" part(s)");
    message
}

impl ValueParseError {
    /// The message of the error.
    pub fn to_string(&self) -> (r: String)
        ensures
            r@ == parse_error_message(self@),
    {
        match self {
            ValueParseError::UnknownValueKind => String::from_str(
                "Value type could not be determined from tree-sitter node",
            ),
            ValueParseError::MissingValue => String::from_str(
                "Field is missing its value assignment",
            ),
            ValueParseError::MissingParseMethod => String::from_str(
                "No parsing method implemented for this value type",
            ),
            ValueParseError::InvalidBoolean(value) => quoted(
                "Boolean value could not be parsed: '",
                value.as_str(),
            ),
            ValueParseError::InvalidInteger(value) => quoted(
                "Integer value could not be parsed: '",
                value.as_str(),
            ),
            ValueParseError::InvalidFloat(value) => quoted(
                "Float value could not be parsed: '",
                value.as_str(),
            ),
            ValueParseError::InvalidCurrencyFormat { source, parts_count } => counted(
                "Currency format is invalid (expected 'amount currency'): '",
                source.as_str(),
                *parts_count,
            ),
            ValueParseError::InvalidCurrencyAmount(amount) => quoted(
                "Currency amount could not be parsed as decimal: '",
                amount.as_str(),
            ),
            ValueParseError::InvalidCurrencyCode(code) => quoted(
                "Currency code is not recognized: '",
                code.as_str(),
            ),
            ValueParseError::InvalidReferenceFormat { source, parts_count } => counted(
                "Reference format is invalid (expected 2 or 3 dot-separated parts): '",
                source.as_str(),
                *parts_count,
            ),
            ValueParseError::InvalidDate(date) => quoted(
                "Date value could not be parsed: '",
                date.as_str(),
            ),
            ValueParseError::InvalidDateTime(datetime) => quoted(
                "DateTime value could not be parsed: '",
                datetime.as_str(),
            ),
            ValueParseError::InvalidTimezone(timezone) => quoted(
                "Timezone offset could not be parsed: '",
                timezone.as_str(),
            ),
            ValueParseError::HeterogeneousList { expected_type, found_type, index } => {
                let mut message = String::from_str(
                    "List contains values of different types (but must be homogeneous): expected ",
                );
                message.append(expected_type.as_str());
                message.append(", found ");
                message.append(found_type.as_str());
                message.append(" at index ");
                message.append(from_chars(&number_chars(*index)).as_str());
                message
            },
        }
    }
}

} // verus!
