//! The error that compilation gives.

use crate::syntax::{ErrorKind, Fault};
use vstd::prelude::*;
use vstd::string::StringExecFns;

verus! {

/// The text that describes a kind of error.
pub open spec fn spec_text(kind: ErrorKind) -> Seq<char> {
    match kind {
        ErrorKind::NulInPattern => "NUL byte in pattern"@,
        ErrorKind::TrailingBackslash => "\\ at end of pattern"@,
        ErrorKind::UnknownEscape => "unrecognized character follows \\"@,
        ErrorKind::MissingBracket => "missing terminating ] for character class"@,
        ErrorKind::RangeOutOfOrder => "range out of order in character class"@,
        ErrorKind::NothingToRepeat => "nothing to repeat"@,
        ErrorKind::NumbersOutOfOrder => "numbers out of order in {} quantifier"@,
        ErrorKind::NumberTooBig => "number too big in {} quantifier"@,
        ErrorKind::MissingParen => "missing )"@,
        ErrorKind::UnmatchedParen => "unmatched parentheses"@,
        ErrorKind::UnknownGroup => "unrecognized character after (? or (?-"@,
        ErrorKind::BadName => "syntax error in subpattern name"@,
        ErrorKind::DuplicateName => "two named subpatterns have the same name"@,
        ErrorKind::UnknownVerb => "(*VERB) not recognized or malformed"@,
        ErrorKind::TooManyGroups => "too many capturing subpatterns"@,
        ErrorKind::TooDeep => "parentheses are too deeply nested"@,
        ErrorKind::UndefinedGroup => "reference to non-existent subpattern"@,
        ErrorKind::LookbehindNotFixed => "lookbehind assertion is not fixed length"@,
        ErrorKind::InconsistentNewline => "inconsistent NEWLINE options"@,
    }
}

pub fn text(kind: ErrorKind) -> (t: &'static str)
    ensures
        t@ == spec_text(kind),
{
    match kind {
        ErrorKind::NulInPattern => "NUL byte in pattern",
        ErrorKind::TrailingBackslash => "\\ at end of pattern",
        ErrorKind::UnknownEscape => "unrecognized character follows \\",
        ErrorKind::MissingBracket => "missing terminating ] for character class",
        ErrorKind::RangeOutOfOrder => "range out of order in character class",
        ErrorKind::NothingToRepeat => "nothing to repeat",
        ErrorKind::NumbersOutOfOrder => "numbers out of order in {} quantifier",
        ErrorKind::NumberTooBig => "number too big in {} quantifier",
        ErrorKind::MissingParen => "missing )",
        ErrorKind::UnmatchedParen => "unmatched parentheses",
        ErrorKind::UnknownGroup => "unrecognized character after (? or (?-",
        ErrorKind::BadName => "syntax error in subpattern name",
        ErrorKind::DuplicateName => "two named subpatterns have the same name",
        ErrorKind::UnknownVerb => "(*VERB) not recognized or malformed",
        ErrorKind::TooManyGroups => "too many capturing subpatterns",
        ErrorKind::TooDeep => "parentheses are too deeply nested",
        ErrorKind::UndefinedGroup => "reference to non-existent subpattern",
        ErrorKind::LookbehindNotFixed => "lookbehind assertion is not fixed length",
        ErrorKind::InconsistentNewline => "inconsistent NEWLINE options",
    }
}

/// The character of a decimal digit.
pub open spec fn digit_char(d: nat) -> char {
    if d == 0 {
        '0'
    } else if d == 1 {
        '1'
    } else if d == 2 {
        '2'
    } else if d == 3 {
        '3'
    } else if d == 4 {
        '4'
    } else if d == 5 {
        '5'
    } else if d == 6 {
        '6'
    } else if d == 7 {
        '7'
    } else if d == 8 {
        '8'
    } else {
        '9'
    }
}

/// A number in decimal digits, without leading zeros.
pub open spec fn decimal_text(n: nat) -> Seq<char>
    decreases n,
{
    if n < 10 {
        seq![digit_char(n)]
    } else {
        decimal_text(n / 10).push(digit_char(n % 10))
    }
}

/// A decimal digit as text.
pub fn digit_text(d: usize) -> (t: &'static str)
    requires
        d < 10,
    ensures
        t@ == seq![digit_char(d as nat)],
{
    proof {
        reveal_strlit("0");
        reveal_strlit("1");
        reveal_strlit("2");
        reveal_strlit("3");
        reveal_strlit("4");
        reveal_strlit("5");
        reveal_strlit("6");
        reveal_strlit("7");
        reveal_strlit("8");
        reveal_strlit("9");
    }
    let t = if d == 0 {
        "0"
    } else if d == 1 {
        "1"
    } else if d == 2 {
        "2"
    } else if d == 3 {
        "3"
    } else if d == 4 {
        "4"
    } else if d == 5 {
        "5"
    } else if d == 6 {
        "6"
    } else if d == 7 {
        "7"
    } else if d == 8 {
        "8"
    } else {
        "9"
    };
    assert(t@ =~= seq![digit_char(d as nat)]);
    t
}

/// A number as decimal text.
pub fn decimal(n: usize) -> (s: String)
    ensures
        s@ == decimal_text(n as nat),
    decreases n,
{
    if n < 10 {
        String::from_str(digit_text(n))
    } else {
        let mut s = decimal(n / 10);
        s.append(digit_text(n % 10));
        assert(s@ =~= decimal_text(n as nat));
        s
    }
}

/// The line that describes a fault: where it is, and what it is.
pub open spec fn spec_describe(fault: Fault) -> Seq<char> {
    "compilation failed at offset "@ + decimal_text(fault.at as nat) + ": "@ + spec_text(
        fault.kind,
    )
}

/// Why a pattern could not be compiled, and where in it.
#[derive(Debug)]
pub struct CompilationError {
    kind: ErrorKind,
    erroffset: usize,
}

impl View for CompilationError {
    type V = Fault;

    closed spec fn view(&self) -> Fault {
        Fault { kind: self.kind, at: self.erroffset }
    }
}

impl CompilationError {
    pub fn new(fault: Fault) -> (e: CompilationError)
        ensures
            e@ == fault,
    {
        CompilationError { kind: fault.kind, erroffset: fault.at }
    }

    /// The reason.
    pub fn kind(&self) -> (k: ErrorKind)
        ensures
            k == self@.kind,
    {
        self.kind
    }

    /// The text that describes the reason.
    pub fn message(&self) -> (m: Option<String>)
        ensures
            m matches Some(t) && t@ == spec_text(self@.kind),
    {
        Some(String::from_str(text(self.kind)))
    }

    /// The offset in the pattern, in bytes, at which compilation failed.
    pub fn offset(&self) -> (at: usize)
        ensures
            at == self@.at,
    {
        self.erroffset
    }

    /// The offset and the reason as one line of text.
    pub fn to_string(&self) -> (line: String)
        ensures
            line@ == spec_describe(self@),
    {
        let mut line = String::from_str("compilation failed at offset ");
        let at = decimal(self.erroffset);
        line.append(at.as_str());
        line.append(": ");
        line.append(text(self.kind));
        line
    }
}

} // verus!
