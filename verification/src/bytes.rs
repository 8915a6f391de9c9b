//! Byte classification, case folding and newline recognition.
//!
//! The engine works on bytes. Letters, digits and white space are the ASCII
//! ones; bytes from 0x80 up belong to no class and have no other case.

use vstd::prelude::*;

verus! {

/// The newline convention: which byte sequences end a line.
#[derive(Clone, Copy, Debug, PartialEq, Eq, Structural)]
pub enum Newline {
    /// A carriage return.
    Cr,
    /// A line feed.
    Lf,
    /// A carriage return followed by a line feed.
    CrLf,
    /// Any of CR LF, CR, LF, VT, FF and NEL.
    Any,
    /// Any of CR LF, CR and LF.
    AnyCrLf,
}

pub open spec fn spec_is_digit(b: u8) -> bool {
    0x30 <= b <= 0x39
}

#[verifier::when_used_as_spec(spec_is_digit)]
pub fn is_digit(b: u8) -> (r: bool)
    ensures
        r == spec_is_digit(b),
{
    0x30 <= b && b <= 0x39
}

pub open spec fn spec_is_upper(b: u8) -> bool {
    0x41 <= b <= 0x5a
}

#[verifier::when_used_as_spec(spec_is_upper)]
pub fn is_upper(b: u8) -> (r: bool)
    ensures
        r == spec_is_upper(b),
{
    0x41 <= b && b <= 0x5a
}

pub open spec fn spec_is_lower(b: u8) -> bool {
    0x61 <= b <= 0x7a
}

#[verifier::when_used_as_spec(spec_is_lower)]
pub fn is_lower(b: u8) -> (r: bool)
    ensures
        r == spec_is_lower(b),
{
    0x61 <= b && b <= 0x7a
}

pub open spec fn spec_is_alpha(b: u8) -> bool {
    spec_is_upper(b) || spec_is_lower(b)
}

#[verifier::when_used_as_spec(spec_is_alpha)]
pub fn is_alpha(b: u8) -> (r: bool)
    ensures
        r == spec_is_alpha(b),
{
    is_upper(b) || is_lower(b)
}

/// A letter, a digit or the underscore.
pub open spec fn spec_is_word(b: u8) -> bool {
    spec_is_alpha(b) || spec_is_digit(b) || b == 0x5f
}

#[verifier::when_used_as_spec(spec_is_word)]
pub fn is_word(b: u8) -> (r: bool)
    ensures
        r == spec_is_word(b),
{
    is_alpha(b) || is_digit(b) || b == 0x5f
}

/// A space, or one of HT, LF, VT, FF and CR.
pub open spec fn spec_is_space(b: u8) -> bool {
    b == 0x20 || (0x09 <= b <= 0x0d)
}

#[verifier::when_used_as_spec(spec_is_space)]
pub fn is_space(b: u8) -> (r: bool)
    ensures
        r == spec_is_space(b),
{
    b == 0x20 || (0x09 <= b && b <= 0x0d)
}

/// The lower-case form of an upper-case letter; any other byte unchanged.
pub open spec fn spec_to_lower(b: u8) -> u8 {
    if spec_is_upper(b) {
        (b + 0x20) as u8
    } else {
        b
    }
}

#[verifier::when_used_as_spec(spec_to_lower)]
pub fn to_lower(b: u8) -> (r: u8)
    ensures
        r == spec_to_lower(b),
{
    if is_upper(b) {
        b + 0x20
    } else {
        b
    }
}

/// Whether two bytes are equal once letters are folded to lower case.
pub open spec fn spec_same_folded(a: u8, b: u8) -> bool {
    spec_to_lower(a) == spec_to_lower(b)
}

#[verifier::when_used_as_spec(spec_same_folded)]
pub fn same_folded(a: u8, b: u8) -> (r: bool)
    ensures
        r == spec_same_folded(a, b),
{
    to_lower(a) == to_lower(b)
}

/// The value of a hexadecimal digit, if the byte is one.
pub open spec fn spec_hex_value(b: u8) -> Option<u8> {
    if spec_is_digit(b) {
        Some((b - 0x30) as u8)
    } else if 0x41 <= b <= 0x46 {
        Some((b - 0x41 + 10) as u8)
    } else if 0x61 <= b <= 0x66 {
        Some((b - 0x61 + 10) as u8)
    } else {
        None
    }
}

#[verifier::when_used_as_spec(spec_hex_value)]
pub fn hex_value(b: u8) -> (r: Option<u8>)
    ensures
        r == spec_hex_value(b),
        r matches Some(v) ==> v < 16,
{
    if is_digit(b) {
        Some(b - 0x30)
    } else if 0x41 <= b && b <= 0x46 {
        Some(b - 0x41 + 10)
    } else if 0x61 <= b && b <= 0x66 {
        Some(b - 0x61 + 10)
    } else {
        None
    }
}

/// The length of the newline sequence that starts at `pos`, or 0 where none
/// starts there.
pub open spec fn spec_newline_at(s: Seq<u8>, pos: usize, nl: Newline) -> usize {
    if pos >= s.len() {
        0
    } else {
        let b = s[pos as int];
        let lf_follows = pos + 1 < s.len() && s[pos + 1] == 0x0a;
        match nl {
            Newline::Cr => if b == 0x0d {
                1
            } else {
                0
            },
            Newline::Lf => if b == 0x0a {
                1
            } else {
                0
            },
            Newline::CrLf => if b == 0x0d && lf_follows {
                2
            } else {
                0
            },
            Newline::AnyCrLf => if b == 0x0d {
                if lf_follows {
                    2
                } else {
                    1
                }
            } else if b == 0x0a {
                1
            } else {
                0
            },
            Newline::Any => if b == 0x0d {
                if lf_follows {
                    2
                } else {
                    1
                }
            } else if b == 0x0a || b == 0x0b || b == 0x0c || b == 0x85 {
                1
            } else {
                0
            },
        }
    }
}

pub fn newline_at(s: &[u8], pos: usize, nl: Newline) -> (r: usize)
    ensures
        r == spec_newline_at(s@, pos, nl),
        r <= 2,
        pos + r <= s.len() || r == 0,
{
    if pos >= s.len() {
        return 0;
    }
    let b = s[pos];
    let lf_follows = pos + 1 < s.len() && s[pos + 1] == 0x0a;
    match nl {
        Newline::Cr => if b == 0x0d {
            1
        } else {
            0
        },
        Newline::Lf => if b == 0x0a {
            1
        } else {
            0
        },
        Newline::CrLf => if b == 0x0d && lf_follows {
            2
        } else {
            0
        },
        Newline::AnyCrLf => if b == 0x0d {
            if lf_follows {
                2
            } else {
                1
            }
        } else if b == 0x0a {
            1
        } else {
            0
        },
        Newline::Any => if b == 0x0d {
            if lf_follows {
                2
            } else {
                1
            }
        } else if b == 0x0a || b == 0x0b || b == 0x0c || b == 0x85 {
            1
        } else {
            0
        },
    }
}

/// Whether a newline sequence ends exactly at `pos`, so that a line starts
/// there. A position between a CR and its LF starts no line where the two
/// count as one newline.
pub open spec fn spec_newline_before(s: Seq<u8>, pos: usize, nl: Newline) -> bool {
    if pos == 0 || pos > s.len() {
        false
    } else {
        let b = s[pos - 1];
        let splits_crlf = b == 0x0d && pos < s.len() && s[pos as int] == 0x0a;
        match nl {
            Newline::Cr => b == 0x0d,
            Newline::Lf => b == 0x0a,
            Newline::CrLf => pos >= 2 && b == 0x0a && s[pos - 2] == 0x0d,
            Newline::AnyCrLf => (b == 0x0d && !splits_crlf) || b == 0x0a,
            Newline::Any => (b == 0x0d && !splits_crlf) || b == 0x0a || b == 0x0b || b == 0x0c
                || b == 0x85,
        }
    }
}

pub fn newline_before(s: &[u8], pos: usize, nl: Newline) -> (r: bool)
    ensures
        r == spec_newline_before(s@, pos, nl),
{
    if pos == 0 || pos > s.len() {
        return false;
    }
    let b = s[pos - 1];
    let splits_crlf = b == 0x0d && pos < s.len() && s[pos] == 0x0a;
    match nl {
        Newline::Cr => b == 0x0d,
        Newline::Lf => b == 0x0a,
        Newline::CrLf => pos >= 2 && b == 0x0a && s[pos - 2] == 0x0d,
        Newline::AnyCrLf => (b == 0x0d && !splits_crlf) || b == 0x0a,
        Newline::Any => (b == 0x0d && !splits_crlf) || b == 0x0a || b == 0x0b || b == 0x0c || b
            == 0x85,
    }
}

/// Whether a word byte stands on exactly one side of `pos`.
pub open spec fn spec_word_boundary(s: Seq<u8>, pos: usize) -> bool {
    let before = 0 < pos <= s.len() && spec_is_word(s[pos - 1]);
    let after = pos < s.len() && spec_is_word(s[pos as int]);
    before != after
}

pub fn word_boundary(s: &[u8], pos: usize) -> (r: bool)
    ensures
        r == spec_word_boundary(s@, pos),
{
    let before = 0 < pos && pos <= s.len() && is_word(s[pos - 1]);
    let after = pos < s.len() && is_word(s[pos]);
    before != after
}

} // verus!
