//! What to tell the user when the source text does not parse.
//!
//! The grammar itself is not part of this library. A caller hands over how
//! the parse failed, as plain values, and gets back the report to print:
//! a message, the span of the source that it is about, and the label to
//! put on that span.

use vstd::prelude::*;
use vstd::string::StringExecFns;
use crate::text::join;

verus! {

/// How a parse failed. Places are byte offsets into the source text.
#[derive(Debug, Clone, PartialEq, Eq)]
pub enum ParseFault {
    /// No token starts at `location`.
    InvalidToken { location: usize },
    /// The text is complete before the token from `start` to `end`.
    ExtraToken { start: usize, end: usize },
    /// The text ends at `location`, where one of `expected` should follow.
    UnrecognizedEof { location: usize, expected: Vec<String> },
    /// One of `expected` should stand in place of the token from `start`
    /// to `end`.
    UnrecognizedToken { start: usize, end: usize, expected: Vec<String> },
}

/// Model of a [`ParseFault`].
pub enum ParseFaultView {
    InvalidToken { location: nat },
    ExtraToken { start: nat, end: nat },
    UnrecognizedEof { location: nat, expected: Seq<Seq<char>> },
    UnrecognizedToken { start: nat, end: nat, expected: Seq<Seq<char>> },
}

impl View for ParseFault {
    type V = ParseFaultView;

    open spec fn view(&self) -> ParseFaultView {
        match *self {
            ParseFault::InvalidToken { location } => ParseFaultView::InvalidToken {
                location: location as nat,
            },
            ParseFault::ExtraToken { start, end } => ParseFaultView::ExtraToken {
                start: start as nat,
                end: end as nat,
            },
            ParseFault::UnrecognizedEof { location, expected } => ParseFaultView::UnrecognizedEof {
                location: location as nat,
                expected: expected.deep_view(),
            },
            ParseFault::UnrecognizedToken {
                start,
                end,
                expected,
            } => ParseFaultView::UnrecognizedToken {
                start: start as nat,
                end: end as nat,
                expected: expected.deep_view(),
            },
        }
    }
}

/// What to print for a failed parse: the message, and the label for the
/// source text from `start` to `end`.
#[derive(Debug, Clone, PartialEq, Eq)]
pub struct Report {
    pub message: String,
    pub start: usize,
    pub end: usize,
    pub label: String,
}

/// Model of a [`Report`].
pub struct ReportView {
    pub message: Seq<char>,
    pub start: nat,
    pub end: nat,
    pub label: Seq<char>,
}

impl View for Report {
    type V = ReportView;

    open spec fn view(&self) -> ReportView {
        ReportView {
            message: self.message@,
            start: self.start as nat,
            end: self.end as nat,
            label: self.label@,
        }
    }
}

/// The label that names what was expected: the names with a comma and a
/// blank between neighbours.
pub open spec fn expected_label(expected: Seq<Seq<char>>) -> Seq<char> {
    "Expected one of: "@ + join(expected, ", "@)
}

/// The report for a failed parse. A fault at one place gets the empty span
/// at that place, a fault of a token the span of the token.
pub open spec fn report_of(fault: ParseFaultView) -> ReportView {
    match fault {
        ParseFaultView::InvalidToken { location } => ReportView {
            message: "Invalid token"@,
            start: location,
            end: location,
            label: "Invalid token"@,
        },
        ParseFaultView::ExtraToken { start, end } => ReportView {
            message: "Extra token"@,
            start,
            end,
            label: "Extra token"@,
        },
        ParseFaultView::UnrecognizedEof { location, expected } => ReportView {
            message: "Unexpected end of file"@,
            start: location,
            end: location,
            label: expected_label(expected),
        },
        ParseFaultView::UnrecognizedToken { start, end, expected } => ReportView {
            message: "Unrecognized token"@,
            start,
            end,
            label: expected_label(expected),
        },
    }
}

/// Returns the label that names what was expected.
fn make_expected_label(expected: &Vec<String>) -> (s: String)
    ensures
        s@ == expected_label(expected.deep_view()),
{
    let mut s = String::from_str("Expected one of: ");
    let ghost names = expected.deep_view();
    let mut k: usize = 0;
    while k < expected.len()
        invariant
            k <= expected.len(),
            names == expected.deep_view(),
            s@ == "Expected one of: "@ + join(names.take(k as int), ", "@),
        decreases expected.len() - k,
    {
        if k > 0 {
            s.append(", ");
        }
        s.append(expected[k].as_str());
        proof {
            let next = names.take(k + 1);
            assert(next.drop_last() =~= names.take(k as int));
            assert(next.last() == expected[k as int]@);
            assert(s@ =~= "Expected one of: "@ + join(next, ", "@));
        }
        k += 1;
    }
    assert(names.take(k as int) =~= names);
    s
}

/// Returns the report for a failed parse.
pub fn report(fault: &ParseFault) -> (r: Report)
    ensures
        r@ == report_of(fault@),
{
    match fault {
        ParseFault::InvalidToken { location } => Report {
            message: String::from_str("Invalid token"),
            start: *location,
            end: *location,
            label: String::from_str("Invalid token"),
        },
        ParseFault::ExtraToken { start, end } => Report {
            message: String::from_str("Extra token"),
            start: *start,
            end: *end,
            label: String::from_str("Extra token"),
        },
        ParseFault::UnrecognizedEof { location, expected } => Report {
            message: String::from_str("Unexpected end of file"),
            start: *location,
            end: *location,
            label: make_expected_label(expected),
        },
        ParseFault::UnrecognizedToken { start, end, expected } => Report {
            message: String::from_str("Unrecognized token"),
            start: *start,
            end: *end,
            label: make_expected_label(expected),
        },
    }
}

} // verus!
