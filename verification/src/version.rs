//! The version of the library, and version numbers as text.

use crate::bytes::{is_digit, spec_is_digit};
use crate::error::{decimal, decimal_text};
use std::cmp::Ordering;
use crate::scan::{find, spec_find};
use crate::syntax::DOT;
use vstd::prelude::*;
use vstd::string::{StringExecFns, StringSliceAdditionalSpecFns};

verus! {

/// A version number: a major and a minor part. Versions are ordered by
/// the major part, and by the minor part where the major parts are equal.
#[derive(Clone, Copy, Debug, PartialEq, Eq, Structural, Ord)]
pub struct Version {
    pub major: usize,
    pub minor: usize,
}

/// The number that decimal digits spell.
pub open spec fn digits_value(d: Seq<u8>) -> nat
    decreases d.len(),
{
    if d.len() == 0 {
        0
    } else {
        digits_value(d.drop_last()) * 10 + (d.last() - 0x30) as nat
    }
}

/// Whether every byte is a decimal digit.
pub open spec fn all_digits(d: Seq<u8>) -> bool {
    forall|i: int| 0 <= i < d.len() ==> spec_is_digit(#[trigger] d[i])
}

/// The number that the bytes spell, if they are digits, at least one, and
/// the number fits.
pub open spec fn spec_number_of(d: Seq<u8>) -> Option<usize> {
    if d.len() > 0 && all_digits(d) && digits_value(d) <= usize::MAX {
        Some(digits_value(d) as usize)
    } else {
        None
    }
}

/// The version that the text spells: a number, a dot and a number, and
/// after a second dot anything.
pub open spec fn spec_version(s: Seq<u8>) -> Option<Version> {
    let dot = spec_find(s, 0, DOT);
    if dot >= s.len() {
        None
    } else {
        let stop = spec_find(s, (dot + 1) as usize, DOT);
        match (
            spec_number_of(s.subrange(0, dot as int)),
            spec_number_of(s.subrange(dot + 1, stop as int)),
        ) {
            (Some(major), Some(minor)) => Some(Version { major, minor }),
            _ => None,
        }
    }
}

/// The digits of a longer run spell no smaller number.
pub proof fn digits_value_grows(d: Seq<u8>, k: int)
    requires
        0 <= k <= d.len(),
        all_digits(d),
    ensures
        digits_value(d.subrange(0, k)) <= digits_value(d),
    decreases d.len() - k,
{
    if k < d.len() {
        let longer = d.subrange(0, k + 1);
        assert(longer.drop_last() =~= d.subrange(0, k));
        assert(spec_is_digit(d[k]));
        digits_value_grows(d, k + 1);
    } else {
        assert(d.subrange(0, k) =~= d);
    }
}

/// Reads the bytes `from..to` as a number.
pub fn number_of(s: &[u8], from: usize, to: usize) -> (r: Option<usize>)
    requires
        from <= to <= s.len(),
    ensures
        r == spec_number_of(s@.subrange(from as int, to as int)),
{
    let ghost d = s@.subrange(from as int, to as int);
    if from == to {
        return None;
    }
    let mut acc: usize = 0;
    let mut i = from;
    while i < to
        invariant
            from <= i <= to <= s.len(),
            d == s@.subrange(from as int, to as int),
            all_digits(d.subrange(0, i - from)),
            acc == digits_value(d.subrange(0, i - from)),
        decreases to - i,
    {
        let c = s[i];
        if !is_digit(c) {
            assert(!spec_is_digit(d[i - from]));
            return None;
        }
        let digit = (c - 0x30) as usize;
        proof {
            let longer = d.subrange(0, i - from + 1);
            assert(longer.drop_last() =~= d.subrange(0, i - from));
            assert(longer.last() == c);
            assert(all_digits(longer)) by {
                assert forall|j: int| 0 <= j < longer.len() implies spec_is_digit(
                    #[trigger] longer[j],
                ) by {
                    if j < i - from {
                        assert(longer[j] == d.subrange(0, i - from)[j]);
                    }
                }
            }
        }
        if acc > (usize::MAX - digit) / 10 {
            proof {
                let longer = d.subrange(0, i - from + 1);
                assert(digits_value(longer) > usize::MAX);
                if all_digits(d) {
                    digits_value_grows(d, i - from + 1);
                }
            }
            return None;
        }
        acc = acc * 10 + digit;
        i += 1;
    }
    assert(d.subrange(0, to - from) =~= d);
    Some(acc)
}

impl Version {
    /// Reads a version from text: a major and a minor number with a dot
    /// between them. What follows a second dot is ignored.
    pub fn parse(version_str: &str) -> (r: Option<Version>)
        ensures
            r == spec_version(version_str.spec_bytes()),
    {
        let s = version_str.as_bytes();
        let dot = find(s, 0, DOT);
        if dot >= s.len() {
            return None;
        }
        let stop = find(s, dot + 1, DOT);
        match (number_of(s, 0, dot), number_of(s, dot + 1, stop)) {
            (Some(major), Some(minor)) => Some(Version { major, minor }),
            _ => None,
        }
    }

    /// The version as text: the major part, a dot, the minor part.
    pub fn to_string(&self) -> (text: String)
        ensures
            text@ == spec_version_string(*self),
    {
        let mut text = decimal(self.major);
        text.append(".");
        let minor = decimal(self.minor);
        text.append(minor.as_str());
        text
    }
}

/// A version as text: the major part, a dot, the minor part.
pub open spec fn spec_version_string(v: Version) -> Seq<char> {
    decimal_text(v.major as nat) + "."@ + decimal_text(v.minor as nat)
}

impl PartialOrd for Version {
    fn partial_cmp(&self, other: &Version) -> (r: Option<Ordering>) {
        if self.major < other.major {
            Some(Ordering::Less)
        } else if self.major > other.major {
            Some(Ordering::Greater)
        } else if self.minor < other.minor {
            Some(Ordering::Less)
        } else if self.minor > other.minor {
            Some(Ordering::Greater)
        } else {
            Some(Ordering::Equal)
        }
    }
}

impl vstd::std_specs::cmp::PartialOrdSpecImpl for Version {
    open spec fn obeys_partial_cmp_spec() -> bool {
        true
    }

    open spec fn partial_cmp_spec(&self, other: &Version) -> Option<Ordering> {
        if self.major < other.major {
            Some(Ordering::Less)
        } else if self.major > other.major {
            Some(Ordering::Greater)
        } else if self.minor < other.minor {
            Some(Ordering::Less)
        } else if self.minor > other.minor {
            Some(Ordering::Greater)
        } else {
            Some(Ordering::Equal)
        }
    }
}

/// The text of the version of this library.
pub open spec fn spec_version_text() -> Seq<char> {
    "0.2.3"@
}

/// Returns the version of this library.
pub fn pcre_version() -> (v: String)
    ensures
        v@ == spec_version_text(),
{
    String::from_str("0.2.3")
}

} // verus!
