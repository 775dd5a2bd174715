//! Why a call cannot be read or written.

use vstd::prelude::*;
use crate::text::decimal_text;

verus! {

/// What is wrong with what was to be read or written.
#[derive(Debug, PartialEq, Eq)]
pub enum LogicError {
    /// The body ends before the prefix of a frame does.
    ShortPrefix,
    /// The body ends before the message that its frame prefix announces.
    ShortFrame {
        /// The length that the prefix claims.
        length: u32,
    },
    /// The message has more bytes than a frame prefix can announce.
    Oversized,
    /// The target is no path to a method of a service.
    NotAMethodPath {
        /// The target as it arrived.
        target: String,
    },
}

/// A `LogicError` as a mathematical value.
#[verifier::ext_equal]
pub enum LogicErrorView {
    ShortPrefix,
    ShortFrame { length: u32 },
    Oversized,
    NotAMethodPath { target: Seq<char> },
}

impl View for LogicError {
    type V = LogicErrorView;

    open spec fn view(&self) -> LogicErrorView {
        match self {
            LogicError::ShortPrefix => LogicErrorView::ShortPrefix,
            LogicError::ShortFrame { length } => LogicErrorView::ShortFrame { length: *length },
            LogicError::Oversized => LogicErrorView::Oversized,
            LogicError::NotAMethodPath { target } => LogicErrorView::NotAMethodPath {
                target: target@,
            },
        }
    }
}

/// The text that std's `Debug` gives for a `str`: quoted, and escaped where a
/// character does not print.
pub uninterp spec fn debug_quoted(text: Seq<char>) -> Seq<char>;

/// `text` as std's `Debug` for `str` writes it, through `format!` and `{:?}`.
///
/// Trusted: the result is a function of the text alone, under the name
/// `debug_quoted`. Which characters it escapes, and how, is left unsaid: std
/// takes that from its Unicode tables.
#[verifier::external_body]
fn quote(text: &str) -> (quoted: String)
    ensures
        quoted@ == debug_quoted(text@),
{
    format!("{text:?}")
}

/// What is said of a target that is no path to a method, given the target in
/// quotes.
pub fn path_refusal(quoted: &str) -> (text: String)
    ensures
        text@ == quoted@ + " is not /package.Service/Method"@,
{
    let mut text = quoted.to_string();
    text.append(" is not /package.Service/Method");
    text
}

impl LogicErrorView {
    /// What the error says.
    pub open spec fn message(self) -> Seq<char> {
        match self {
            LogicErrorView::ShortPrefix => "the body is shorter than a gRPC frame prefix"@,
            LogicErrorView::ShortFrame { length } => "the frame claims "@
                + crate::text::decimal(length as nat) + " bytes, the body has fewer"@,
            LogicErrorView::Oversized => "a message over 4 GiB does not fit a frame"@,
            LogicErrorView::NotAMethodPath { target } => debug_quoted(target)
                + " is not /package.Service/Method"@,
        }
    }
}

impl LogicError {
    /// What the error says.
    pub fn message(&self) -> (text: String)
        ensures
            text@ == self@.message(),
    {
        match self {
            LogicError::ShortPrefix => {
                "the body is shorter than a gRPC frame prefix".to_string()
            },
            LogicError::ShortFrame { length } => {
                let mut text = "the frame claims ".to_string();
                text.append(decimal_text(*length).as_str());
                text.append(" bytes, the body has fewer");
                text
            },
            LogicError::Oversized => "a message over 4 GiB does not fit a frame".to_string(),
            LogicError::NotAMethodPath { target } => {
                let quoted = quote(target.as_str());
                path_refusal(quoted.as_str())
            },
        }
    }
}

} // verus!
