//! A match: the subject and the offsets of the groups within it.

use crate::exec::ExecError;
use crate::matcher::caps_ok;
use crate::program::{MAX_GROUPS, UNSET};
use crate::search::{Found, FoundV};
use vstd::prelude::*;
use vstd::string::StringSliceAdditionalSpecFns;
use vstd::utf8::is_char_boundary;

verus! {

/// The number of the highest group at or below `g` that is set, or 0.
pub open spec fn top_group(caps: Seq<usize>, g: int) -> int
    decreases g,
{
    if g <= 0 {
        0
    } else if caps[2 * g] != UNSET {
        g
    } else {
        top_group(caps, g - 1)
    }
}

/// The offsets of a partial match of a program with `groups` groups: group
/// 0 spans `start..end` and no other group is set.
pub open spec fn partial_offsets(groups: int, start: usize, end: usize) -> Seq<usize> {
    Seq::new(
        (2 * (groups + 1)) as nat,
        |i: int|
            if i == 0 {
                start
            } else if i == 1 {
                end
            } else {
                UNSET
            },
    )
}

/// Represents a match of a subject string against a regular expression.
#[derive(Debug)]
pub struct Match<'a> {
    subject: &'a str,
    partial_ovector: Vec<usize>,
    string_count_: usize,
    partial_: bool,
}

impl<'a> Match<'a> {
    /// The bytes of the subject.
    pub closed spec fn subject(&self) -> Seq<u8> {
        self.subject.spec_bytes()
    }

    /// The offsets: the start of group `n` at `2 * n` and its end at
    /// `2 * n + 1`, both `UNSET` where the group took no part.
    pub closed spec fn offsets(&self) -> Seq<usize> {
        self.partial_ovector@
    }

    /// Whether the match is partial: the subject ran out while it matched.
    pub closed spec fn partial(&self) -> bool {
        self.partial_
    }

    pub closed spec fn count(&self) -> usize {
        self.string_count_
    }

    /// The number of capture groups, without group 0.
    pub open spec fn groups(&self) -> int {
        self.offsets().len() / 2 - 1
    }

    /// The invariant of a match: every group is unset or a range within
    /// the subject, group 0 is a range, and the count is one more than the
    /// number of the highest group that is set.
    pub open spec fn wf(&self) -> bool {
        &&& 0 <= self.groups() <= MAX_GROUPS
        &&& caps_ok(self.offsets(), self.groups(), self.subject().len() as int)
        &&& self.offsets()[0] <= self.offsets()[1] <= self.subject().len()
        &&& self.count() == top_group(self.offsets(), self.groups()) + 1
    }

    /// Whether group `n` took part in the match.
    pub open spec fn is_set(&self, n: usize) -> bool {
        self.offsets()[2 * n] <= self.offsets()[2 * n + 1] <= self.subject().len()
    }

    /// Returns the start index within the subject string of capture group
    /// `n`, or `usize::MAX` if the group took no part in the match.
    pub fn group_start(&self, n: usize) -> (r: usize)
        requires
            self.wf(),
            n <= self.groups(),
        ensures
            r == self.offsets()[2 * n],
    {
        self.partial_ovector[n * 2]
    }

    /// Returns the end index within the subject string of capture group
    /// `n`, or `usize::MAX` if the group took no part in the match.
    pub fn group_end(&self, n: usize) -> (r: usize)
        requires
            self.wf(),
            n <= self.groups(),
        ensures
            r == self.offsets()[2 * n + 1],
    {
        self.partial_ovector[n * 2 + 1]
    }

    /// Returns the length of the substring for capture group `n`; 0 if the
    /// group took no part in the match.
    pub fn group_len(&self, n: usize) -> (r: usize)
        requires
            self.wf(),
            n <= self.groups(),
        ensures
            r == self.offsets()[2 * n + 1] - self.offsets()[2 * n],
    {
        proof {
            let g = n as int;
            assert(self.offsets()[2 * g] == self.partial_ovector@[n * 2]);
        }
        self.partial_ovector[n * 2 + 1] - self.partial_ovector[n * 2]
    }

    /// Returns the bytes of the substring for capture group `n`.
    pub fn group_bytes(&self, n: usize) -> (r: &'a [u8])
        requires
            self.wf(),
            n <= self.groups(),
            self.is_set(n),
        ensures
            r@ == self.subject().subrange(
                self.offsets()[2 * n] as int,
                self.offsets()[2 * n + 1] as int,
            ),
    {
        let start = self.partial_ovector[n * 2];
        let end = self.partial_ovector[n * 2 + 1];
        let bytes: &'a [u8] = self.subject.as_bytes();
        let (head, _) = bytes.split_at(end);
        let (_, tail) = head.split_at(start);
        assert(tail@ =~= self.subject().subrange(start as int, end as int));
        tail
    }

    /// Returns the substring for capture group `n` as a slice. The group
    /// must have taken part in the match and must begin and end between two
    /// characters of the subject.
    pub fn group(&self, n: usize) -> (r: &'a str)
        requires
            self.wf(),
            n <= self.groups(),
            self.is_set(n),
            is_char_boundary(self.subject(), self.offsets()[2 * n] as int),
            is_char_boundary(self.subject(), self.offsets()[2 * n + 1] as int),
        ensures
            r.spec_bytes() == self.subject().subrange(
                self.offsets()[2 * n] as int,
                self.offsets()[2 * n + 1] as int,
            ),
    {
        let start = self.partial_ovector[n * 2];
        let end = self.partial_ovector[n * 2 + 1];
        proof {
            let bytes = self.subject.spec_bytes();
            vstd::utf8::encode_utf8_valid_utf8(self.subject@);
            vstd::utf8::valid_utf8_split(bytes, end as int);
            let head = bytes.subrange(0, end as int);
            if start < end {
                vstd::utf8::is_char_boundary_iff_not_is_continuation_byte(bytes, start as int);
                vstd::utf8::is_char_boundary_iff_not_is_continuation_byte(head, start as int);
            } else {
                vstd::utf8::is_char_boundary_start_end_of_seq(head);
            }
        }
        let (head, _) = self.subject.split_at(end);
        let (_, tail) = head.split_at(start);
        assert(tail.spec_bytes() =~= self.subject().subrange(start as int, end as int));
        tail
    }

    /// Returns the number of substrings captured: one more than the number
    /// of the highest group that took part in the match.
    pub fn string_count(&self) -> (r: usize)
        requires
            self.wf(),
        ensures
            r == top_group(self.offsets(), self.groups()) + 1,
            1 <= r <= self.groups() + 1,
    {
        proof {
            top_group_bound(self.offsets(), self.groups());
        }
        self.string_count_
    }

    /// Whether the match is partial: no complete match was found, but the
    /// subject ran out while it matched from the start of group 0 on.
    pub fn is_partial(&self) -> (r: bool)
        ensures
            r == self.partial(),
    {
        self.partial_
    }
}

/// The highest group that is set lies between 0 and `g`.
pub proof fn top_group_bound(caps: Seq<usize>, g: int)
    requires
        0 <= g,
    ensures
        0 <= top_group(caps, g) <= g,
    decreases g,
{
    if g > 0 && caps[2 * g] == UNSET {
        top_group_bound(caps, g - 1);
    }
}

/// Counts the substrings captured.
pub fn count_strings(caps: &Vec<usize>, groups: usize) -> (r: usize)
    requires
        caps@.len() == 2 * (groups + 1),
        groups <= MAX_GROUPS,
    ensures
        r == top_group(caps@, groups as int) + 1,
{
    let mut g = groups;
    while g > 0 && caps[2 * g] == UNSET
        invariant
            g <= groups <= MAX_GROUPS,
            caps@.len() == 2 * (groups + 1),
            top_group(caps@, groups as int) == top_group(caps@, g as int),
        decreases g,
    {
        g -= 1;
    }
    g + 1
}

/// The offsets of a partial match.
pub fn partial_caps(groups: usize, start: usize, end: usize) -> (caps: Vec<usize>)
    requires
        groups <= MAX_GROUPS,
    ensures
        caps@ == partial_offsets(groups as int, start, end),
{
    let n = 2 * (groups + 1);
    let mut caps: Vec<usize> = Vec::with_capacity(n);
    caps.push(start);
    caps.push(end);
    let mut i: usize = 2;
    while i < n
        invariant
            2 <= i <= n,
            n == 2 * (groups + 1),
            caps@.len() == i,
            caps@[0] == start,
            caps@[1] == end,
            forall|j: int| 2 <= j < i ==> caps@[j] == UNSET,
        decreases n - i,
    {
        caps.push(UNSET);
        i += 1;
    }
    assert(caps@ =~= partial_offsets(groups as int, start, end));
    caps
}

/// Whether a result lies within a subject of `len` bytes with its offsets
/// in order.
pub open spec fn in_subject(f: FoundV, groups: int, len: int) -> bool {
    match f {
        FoundV::Match { start, end, slots } => {
            &&& start <= end <= len
            &&& caps_ok(slots.caps, groups, len)
            &&& slots.caps[0] == start
            &&& slots.caps[1] == end
        },
        FoundV::Partial { start } => start <= len,
        _ => true,
    }
}

/// Whether `m` presents the result `f` of a search in a subject.
pub open spec fn presents(m: Option<Match>, f: FoundV, subject: Seq<u8>, groups: int) -> bool {
    match f {
        FoundV::Match { start, end, slots } => m matches Some(x) && x.wf() && x.subject()
            == subject && x.offsets() == slots.caps && !x.partial(),
        FoundV::Partial { start } => m matches Some(x) && x.wf() && x.subject() == subject
            && x.offsets() == partial_offsets(groups, start, subject.len() as usize) && x.partial(),
        _ => m is None,
    }
}

/// Whether `r` answers a call with the result `outcome`: the match that
/// presents what was found, or the error. An error is never an answer of no
/// match.
pub open spec fn answers(
    r: Result<Option<Match>, ExecError>,
    outcome: Result<FoundV, ExecError>,
    subject: Seq<u8>,
    groups: int,
) -> bool {
    match outcome {
        Ok(found) => r matches Ok(m) && presents(m, found, subject, groups),
        Err(e) => r matches Err(x) && x == e,
    }
}

/// The match that presents the result of a search, if it found one.
pub fn present<'a>(subject: &'a str, found: Found, groups: usize) -> (m: Option<Match<'a>>)
    requires
        groups <= MAX_GROUPS,
        in_subject(found@, groups as int, subject.spec_bytes().len() as int),
    ensures
        presents(m, found@, subject.spec_bytes(), groups as int),
{
    let len = subject.as_bytes().len();
    match found {
        Found::Match { start, end, slots } => {
            let count = count_strings(&slots.caps, groups);
            assert(slots.caps@.len() / 2 - 1 == groups);
            Some(
                Match {
                    subject,
                    partial_ovector: slots.caps,
                    string_count_: count,
                    partial_: false,
                },
            )
        },
        Found::Partial { start } => {
            let caps = partial_caps(groups, start, len);
            assert(caps@.len() / 2 - 1 == groups);
            proof {
                assert forall|g: int| 0 <= g <= groups implies {
                    let s = #[trigger] caps@[2 * g];
                    let e = caps@[2 * g + 1];
                    if s == UNSET {
                        e == UNSET
                    } else {
                        s <= e <= len
                    }
                } by {
                    if g == 0 {
                        assert(caps@[0] == start);
                        assert(caps@[1] == len);
                    }
                }
            }
            let count = count_strings(&caps, groups);
            Some(Match { subject, partial_ovector: caps, string_count_: count, partial_: true })
        },
        _ => None,
    }
}

} // verus!
