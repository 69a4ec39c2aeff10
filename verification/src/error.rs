//! The error model: every failure carries the byte offset of the token that
//! could not be decoded.

use crate::parser::{expected_version, schema_version};
use vstd::prelude::*;
use vstd::string::StringExecFns;

verus! {

/// The ways in which decoding can fail.
#[derive(Debug, Clone, PartialEq, Eq)]
pub enum ErrorKind {
    /// The leading version string is not the expected one; holds the string found.
    InvalidVersion(String),
    /// A variable-length integer does not fit in 32 bits; holds the decoded value.
    VarintTooLarge(u64),
    /// A variable-length integer is cut short or runs over 64 bits.
    VarintMalformed,
    /// A byte was expected where the input ends.
    UnexpectedEndOfInput,
    /// A length prefix announces more bytes than remain; holds the announced length.
    Truncated(usize),
    /// A string is not valid UTF-8.
    InvalidUtf8,
    /// A section id outside the known four.
    InvalidSection(u8),
    /// A value type code outside the known eleven.
    InvalidValType(u8),
    /// An opcode that no instruction has.
    InvalidInstruction(u8),
    /// Bytes are left in a section or function body after its last item.
    TrailingBytes,
}

/// The mathematical model of an [`ErrorKind`].
pub enum ErrorKindView {
    InvalidVersion(Seq<char>),
    VarintTooLarge(nat),
    VarintMalformed,
    UnexpectedEndOfInput,
    Truncated(nat),
    InvalidUtf8,
    InvalidSection(u8),
    InvalidValType(u8),
    InvalidInstruction(u8),
    TrailingBytes,
}

impl View for ErrorKind {
    type V = ErrorKindView;

    open spec fn view(&self) -> ErrorKindView {
        match *self {
            ErrorKind::InvalidVersion(found) => ErrorKindView::InvalidVersion(found@),
            ErrorKind::VarintTooLarge(n) => ErrorKindView::VarintTooLarge(n as nat),
            ErrorKind::VarintMalformed => ErrorKindView::VarintMalformed,
            ErrorKind::UnexpectedEndOfInput => ErrorKindView::UnexpectedEndOfInput,
            ErrorKind::Truncated(len) => ErrorKindView::Truncated(len as nat),
            ErrorKind::InvalidUtf8 => ErrorKindView::InvalidUtf8,
            ErrorKind::InvalidSection(id) => ErrorKindView::InvalidSection(id),
            ErrorKind::InvalidValType(code) => ErrorKindView::InvalidValType(code),
            ErrorKind::InvalidInstruction(opcode) => ErrorKindView::InvalidInstruction(opcode),
            ErrorKind::TrailingBytes => ErrorKindView::TrailingBytes,
        }
    }
}

/// The decimal digit that stands for `d`.
pub open spec fn digit(d: nat) -> char
    recommends
        d < 10,
{
    if d == 0 {
        '0'
    } else if d == 1 {
        '1'
    } else if d == 2 {
        '2'
    } else if d == 3 {
        '3'
    } else if d == 4 {
        '4'
    } else if d == 5 {
        '5'
    } else if d == 6 {
        '6'
    } else if d == 7 {
        '7'
    } else if d == 8 {
        '8'
    } else {
        '9'
    }
}

/// The decimal spelling of `n`, without leading zeros.
pub open spec fn decimal(n: nat) -> Seq<char>
    decreases n,
{
    if n < 10 {
        seq![digit(n)]
    } else {
        decimal(n / 10).push(digit(n % 10))
    }
}

impl ErrorKindView {
    /// What this kind of failure says of itself.
    pub open spec fn message(self) -> Seq<char> {
        match self {
            ErrorKindView::InvalidVersion(found) => "schema version `"@ + found
                + "` doesn't match `"@ + expected_version() + "`"@,
            ErrorKindView::VarintTooLarge(_) => "uleb encoded integer too big"@,
            ErrorKindView::VarintMalformed => "failed to parse uleb integer"@,
            ErrorKindView::UnexpectedEndOfInput => "unexpected end-of-file"@,
            ErrorKindView::Truncated(len) => "expected "@ + decimal(len)
                + " more bytes but hit eof"@,
            ErrorKindView::InvalidUtf8 => "invalid utf-8 string"@,
            ErrorKindView::InvalidSection(id) => "invalid section id: "@ + decimal(id as nat),
            ErrorKindView::InvalidValType(code) => "invalid value type: "@ + decimal(code as nat),
            ErrorKindView::InvalidInstruction(opcode) => "invalid instruction: "@ + decimal(
                opcode as nat,
            ),
            ErrorKindView::TrailingBytes => "trailing bytes at the end of the section"@,
        }
    }
}

impl ErrorView {
    /// What this failure says of itself: where it happened, then what
    /// happened.
    pub open spec fn message(self) -> Seq<char> {
        "failed to parse at byte "@ + decimal(self.at) + ": "@ + self.kind.message()
    }
}

/// The decimal digit that stands for `d`, as a string.
fn digit_str(d: u64) -> (s: &'static str)
    requires
        d < 10,
    ensures
        s@ == seq![digit(d as nat)],
{
    proof {
        reveal_strlit("0");
        reveal_strlit("1");
        reveal_strlit("2");
        reveal_strlit("3");
        reveal_strlit("4");
        reveal_strlit("5");
        reveal_strlit("6");
        reveal_strlit("7");
        reveal_strlit("8");
        reveal_strlit("9");
    }
    let s = if d == 0 {
        "0"
    } else if d == 1 {
        "1"
    } else if d == 2 {
        "2"
    } else if d == 3 {
        "3"
    } else if d == 4 {
        "4"
    } else if d == 5 {
        "5"
    } else if d == 6 {
        "6"
    } else if d == 7 {
        "7"
    } else if d == 8 {
        "8"
    } else {
        "9"
    };
    assert(s@ =~= seq![digit(d as nat)]);
    s
}

/// Appends the decimal spelling of `n` to `out`.
fn push_decimal(out: &mut String, n: u64)
    ensures
        final(out)@ == old(out)@ + decimal(n as nat),
    decreases n,
{
    if n >= 10 {
        push_decimal(out, n / 10);
    }
    out.append(digit_str(n % 10));
    assert(final(out)@ =~= old(out)@ + decimal(n as nat));
}

impl ErrorKind {
    /// Appends to `out` what this kind of failure says of itself.
    fn push_message(&self, out: &mut String)
        ensures
            final(out)@ == old(out)@ + self@.message(),
    {
        match self {
            ErrorKind::InvalidVersion(found) => {
                out.append("schema version `");
                out.append(found.as_str());
                out.append("` doesn't match `");
                out.append(schema_version());
                out.append("`");
            },
            ErrorKind::VarintTooLarge(_) => out.append("uleb encoded integer too big"),
            ErrorKind::VarintMalformed => out.append("failed to parse uleb integer"),
            ErrorKind::UnexpectedEndOfInput => out.append("unexpected end-of-file"),
            ErrorKind::Truncated(len) => {
                out.append("expected ");
                push_decimal(out, *len as u64);
                out.append(" more bytes but hit eof");
            },
            ErrorKind::InvalidUtf8 => out.append("invalid utf-8 string"),
            ErrorKind::InvalidSection(id) => {
                out.append("invalid section id: ");
                push_decimal(out, *id as u64);
            },
            ErrorKind::InvalidValType(code) => {
                out.append("invalid value type: ");
                push_decimal(out, *code as u64);
            },
            ErrorKind::InvalidInstruction(opcode) => {
                out.append("invalid instruction: ");
                push_decimal(out, *opcode as u64);
            },
            ErrorKind::TrailingBytes => out.append("trailing bytes at the end of the section"),
        }
        assert(final(out)@ =~= old(out)@ + self@.message());
    }
}

/// The mathematical model of an [`Error`]: where decoding failed, and how.
pub struct ErrorView {
    pub at: nat,
    pub kind: ErrorKindView,
}

/// A decoding failure: the offset of the failing token in the whole input,
/// and the kind of failure.
#[derive(Debug, Clone, PartialEq, Eq)]
pub struct Error {
    at: usize,
    kind: ErrorKind,
}

impl View for Error {
    type V = ErrorView;

    closed spec fn view(&self) -> ErrorView {
        ErrorView { at: self.at as nat, kind: self.kind@ }
    }
}

impl Error {
    /// A failure of the given kind at byte offset `at`.
    pub fn new(at: usize, kind: ErrorKind) -> (e: Error)
        ensures
            e@ == (ErrorView { at: at as nat, kind: kind@ }),
    {
        Error { at, kind }
    }

    /// The byte offset of the token that failed.
    pub fn at(&self) -> (at: usize)
        ensures
            at == self@.at,
    {
        self.at
    }

    /// How decoding failed.
    pub fn kind(&self) -> (kind: &ErrorKind)
        ensures
            kind@ == self@.kind,
    {
        &self.kind
    }

    /// What this failure says of itself: where it happened, then what
    /// happened.
    pub fn message(&self) -> (text: String)
        ensures
            text@ == self@.message(),
    {
        let mut text = String::new();
        text.append("failed to parse at byte ");
        push_decimal(&mut text, self.at as u64);
        text.append(": ");
        self.kind.push_message(&mut text);
        assert(text@ =~= self@.message());
        text
    }
}

} // verus!
