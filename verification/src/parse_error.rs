//! Errors reported while parsing.

use std::sync::Arc;
use vstd::prelude::*;
use crate::range::Range;
use crate::DebugId;
use crate::text::{decimal, push_decimal, push_str, string_of};

verus! {

/// Errors reporting expected values.
#[derive(Debug, PartialEq)]
pub enum ParseError {
    /// Whitespace is required.
    ExpectedWhitespace(DebugId),
    /// New line is required.
    ExpectedNewLine(DebugId),
    /// Something is required.
    ExpectedSomething(DebugId),
    /// Expected number.
    ExpectedNumber(DebugId),
    /// Error when parsing float.
    ParseNumberError(read_token::ParseNumberError, DebugId),
    /// Expected text.
    ExpectedText(DebugId),
    /// Empty text not allowed.
    EmptyTextNotAllowed(DebugId),
    /// Invalid string format.
    ParseStringError(read_token::ParseStringError, DebugId),
    /// Expected tag.
    ExpectedTag(Arc<String>, DebugId),
    /// Did not expected tag.
    DidNotExpectTag(Arc<String>, DebugId),
    /// An invalid rule.
    InvalidRule(&'static str, DebugId),
    /// No rules are specified.
    NoRules,
    /// Expected to reach the end.
    ExpectedEnd,
    /// Conversion error.
    Conversion(String),
}

/// The mathematical view of a `ParseError`: texts as character sequences.
pub enum ParseErrorV {
    /// Whitespace is required.
    ExpectedWhitespace(DebugId),
    /// New line is required.
    ExpectedNewLine(DebugId),
    /// Something is required.
    ExpectedSomething(DebugId),
    /// Expected number.
    ExpectedNumber(DebugId),
    /// Error when parsing a number.
    ParseNumberError(read_token::ParseNumberError, DebugId),
    /// Expected text.
    ExpectedText(DebugId),
    /// Empty text not allowed.
    EmptyTextNotAllowed(DebugId),
    /// Invalid string format.
    ParseStringError(read_token::ParseStringError, DebugId),
    /// Expected tag.
    ExpectedTag(Seq<char>, DebugId),
    /// Did not expect tag.
    DidNotExpectTag(Seq<char>, DebugId),
    /// An invalid rule.
    InvalidRule(Seq<char>, DebugId),
    /// No rules are specified.
    NoRules,
    /// Expected to reach the end.
    ExpectedEnd,
    /// Conversion error.
    Conversion(Seq<char>),
}

impl View for ParseError {
    type V = ParseErrorV;

    open spec fn view(&self) -> ParseErrorV {
        match self {
            ParseError::ExpectedWhitespace(id) => ParseErrorV::ExpectedWhitespace(*id),
            ParseError::ExpectedNewLine(id) => ParseErrorV::ExpectedNewLine(*id),
            ParseError::ExpectedSomething(id) => ParseErrorV::ExpectedSomething(*id),
            ParseError::ExpectedNumber(id) => ParseErrorV::ExpectedNumber(*id),
            ParseError::ParseNumberError(e, id) => ParseErrorV::ParseNumberError(*e, *id),
            ParseError::ExpectedText(id) => ParseErrorV::ExpectedText(*id),
            ParseError::EmptyTextNotAllowed(id) => ParseErrorV::EmptyTextNotAllowed(*id),
            ParseError::ParseStringError(e, id) => ParseErrorV::ParseStringError(*e, *id),
            ParseError::ExpectedTag(t, id) => ParseErrorV::ExpectedTag(t@, *id),
            ParseError::DidNotExpectTag(t, id) => ParseErrorV::DidNotExpectTag(t@, *id),
            ParseError::InvalidRule(m, id) => ParseErrorV::InvalidRule(m@, *id),
            ParseError::NoRules => ParseErrorV::NoRules,
            ParseError::ExpectedEnd => ParseErrorV::ExpectedEnd,
            ParseError::Conversion(m) => ParseErrorV::Conversion(m@),
        }
    }
}

/// The view of an error with its range.
pub open spec fn err_view(e: Range<ParseError>) -> Range<ParseErrorV> {
    Range { offset: e.offset, length: e.length, data: e.data@ }
}

/// The view of an optional error with its range.
pub open spec fn opt_err_view(e: Option<Range<ParseError>>) -> Option<Range<ParseErrorV>> {
    match e {
        Some(e) => Some(err_view(e)),
        None => None,
    }
}


/// What the `Display` of `read_token::ParseNumberError` writes for an error.
pub uninterp spec fn number_error_message(e: read_token::ParseNumberError) -> Seq<char>;

/// What the `Display` of `read_token::ParseStringError` writes for an error.
pub uninterp spec fn string_error_message(e: read_token::ParseStringError) -> Seq<char>;

/// Formats a number error with its `Display` from `read_token`.
#[verifier::external_body]
fn number_error_text(e: read_token::ParseNumberError) -> (s: String)
    ensures
        s@ == number_error_message(e),
{
    format!("{}", e)
}

/// Formats a string error with its `Display` from `read_token`.
#[verifier::external_body]
fn string_error_text(e: read_token::ParseStringError) -> (s: String)
    ensures
        s@ == string_error_message(e),
{
    format!("{}", e)
}

/// The message of an error with a debug id.
pub open spec fn with_id(id: DebugId, msg: Seq<char>) -> Seq<char> {
    "#"@ + decimal(id as nat) + ", "@ + msg
}

/// The message that describes an error.
pub open spec fn error_text(e: ParseErrorV) -> Seq<char> {
    match e {
        ParseErrorV::ExpectedWhitespace(id) => with_id(id, "Expected whitespace"@),
        ParseErrorV::ExpectedNewLine(id) => with_id(id, "Expected new line"@),
        ParseErrorV::ExpectedSomething(id) => with_id(id, "Expected something"@),
        ParseErrorV::ExpectedNumber(id) => with_id(id, "Expected number"@),
        ParseErrorV::ParseNumberError(err, id) => with_id(id, "Invalid number format: "@ + number_error_message(err)),
        ParseErrorV::ExpectedTag(t, id) => with_id(id, "Expected: `"@ + t + "`"@),
        ParseErrorV::DidNotExpectTag(t, id) => with_id(id, "Did not expect: `"@ + t + "`"@),
        ParseErrorV::ExpectedText(id) => with_id(id, "Expected text"@),
        ParseErrorV::EmptyTextNotAllowed(id) => with_id(id, "Empty text not allowed"@),
        ParseErrorV::ParseStringError(err, id) => with_id(id, "Invalid string format: "@ + string_error_message(err)),
        ParseErrorV::InvalidRule(msg, id) => with_id(id, "Invalid rule: "@ + msg),
        ParseErrorV::NoRules => "No rules are specified"@,
        ParseErrorV::ExpectedEnd => "Expected end"@,
        ParseErrorV::Conversion(msg) => "Conversion, "@ + msg,
    }
}

/// Appends the message of an error with a debug id.
fn push_with_id(out: &mut Vec<char>, id: DebugId, msg: &str)
    ensures
        final(out)@ == old(out)@ + with_id(id, msg@),
{
    push_str(out, "#");
    push_decimal(out, id);
    push_str(out, ", ");
    push_str(out, msg);
    proof {
        assert(final(out)@ =~= old(out)@ + with_id(id, msg@));
    }
}

impl ParseError {
    /// Appends the message that describes the error.
    pub fn push_text(&self, out: &mut Vec<char>)
        ensures
            final(out)@ == old(out)@ + error_text(self@),
    {
        let ghost start = out@;
        match self {
            ParseError::ExpectedWhitespace(id) => push_with_id(out, *id, "Expected whitespace"),
            ParseError::ExpectedNewLine(id) => push_with_id(out, *id, "Expected new line"),
            ParseError::ExpectedSomething(id) => push_with_id(out, *id, "Expected something"),
            ParseError::ExpectedNumber(id) => push_with_id(out, *id, "Expected number"),
            ParseError::ParseNumberError(err, id) => {
                let text = number_error_text(*err);
                push_with_id(out, *id, "Invalid number format: ");
                push_str(out, text.as_str());
            },
            ParseError::ExpectedTag(t, id) => {
                push_with_id(out, *id, "Expected: `");
                push_str(out, t.as_str());
                push_str(out, "`");
            },
            ParseError::DidNotExpectTag(t, id) => {
                push_with_id(out, *id, "Did not expect: `");
                push_str(out, t.as_str());
                push_str(out, "`");
            },
            ParseError::ExpectedText(id) => push_with_id(out, *id, "Expected text"),
            ParseError::EmptyTextNotAllowed(id) => push_with_id(out, *id, "Empty text not allowed"),
            ParseError::ParseStringError(err, id) => {
                let text = string_error_text(*err);
                push_with_id(out, *id, "Invalid string format: ");
                push_str(out, text.as_str());
            },
            ParseError::InvalidRule(msg, id) => {
                push_with_id(out, *id, "Invalid rule: ");
                push_str(out, msg);
            },
            ParseError::NoRules => push_str(out, "No rules are specified"),
            ParseError::ExpectedEnd => push_str(out, "Expected end"),
            ParseError::Conversion(msg) => {
                push_str(out, "Conversion, ");
                push_str(out, msg.as_str());
            },
        }
        proof {
            assert(out@ =~= start + error_text(self@));
        }
    }

    /// The message that describes the error.
    pub fn to_string(&self) -> (s: String)
        ensures
            s@ == error_text(self@),
    {
        let mut out: Vec<char> = Vec::new();
        self.push_text(&mut out);
        proof {
            assert(out@ =~= error_text(self@));
        }
        string_of(&out)
    }
}

} // verus!
