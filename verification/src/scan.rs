//! The small scanners of the parser: blanks and comments, numbers, names.

use crate::bytes::{is_digit, is_space, is_word, spec_is_digit, spec_is_space, spec_is_word};
use crate::syntax::{HASH, LINEFEED};
use vstd::prelude::*;

verus! {

/// The position after the comment that runs from `pos` to the end of its
/// line.
pub open spec fn spec_skip_comment(p: Seq<u8>, pos: usize) -> usize
    decreases p.len() - pos,
    when p.len() <= usize::MAX
{
    if pos >= p.len() {
        pos
    } else if p[pos as int] == LINEFEED {
        (pos + 1) as usize
    } else {
        spec_skip_comment(p, (pos + 1) as usize)
    }
}

pub fn skip_comment(p: &[u8], pos: usize) -> (r: usize)
    requires
        pos <= p@.len(),
    ensures
        r == spec_skip_comment(p@, pos),
        pos <= r <= p@.len(),
{
    let mut at = pos;
    while at < p.len() && p[at] != LINEFEED
        invariant
            pos <= at <= p@.len(),
            spec_skip_comment(p@, pos) == spec_skip_comment(p@, at),
        decreases p@.len() - at,
    {
        at += 1;
    }
    if at < p.len() {
        at + 1
    } else {
        at
    }
}

/// The position of the first byte at or after `pos` that is neither white
/// space nor part of a `#` comment.
pub open spec fn spec_skip_blank(p: Seq<u8>, pos: usize) -> usize
    decreases p.len() - pos,
    when p.len() <= usize::MAX
{
    if pos >= p.len() {
        pos
    } else if spec_is_space(p[pos as int]) {
        spec_skip_blank(p, (pos + 1) as usize)
    } else if p[pos as int] == HASH {
        let after = spec_skip_comment(p, (pos + 1) as usize);
        if pos < after <= p.len() {
            spec_skip_blank(p, after)
        } else {
            pos
        }
    } else {
        pos
    }
}

pub fn skip_blank(p: &[u8], pos: usize) -> (r: usize)
    requires
        pos <= p@.len(),
    ensures
        r == spec_skip_blank(p@, pos),
        pos <= r <= p@.len(),
{
    let mut at = pos;
    loop
        invariant
            pos <= at <= p@.len(),
            spec_skip_blank(p@, pos) == spec_skip_blank(p@, at),
        decreases p@.len() - at,
    {
        if at >= p.len() {
            return at;
        }
        let c = p[at];
        if is_space(c) {
            at += 1;
        } else if c == HASH {
            at = skip_comment(p, at + 1);
        } else {
            return at;
        }
    }
}

/// The position after the digits that start at `pos`.
pub open spec fn spec_digits_end(p: Seq<u8>, pos: usize) -> usize
    decreases p.len() - pos,
    when p.len() <= usize::MAX
{
    if pos < p.len() && spec_is_digit(p[pos as int]) {
        spec_digits_end(p, (pos + 1) as usize)
    } else {
        pos
    }
}

/// The value of the decimal digits in `pos..end`, continued from `acc`
/// and held at `cap + 1` once it exceeds `cap`.
pub open spec fn spec_decimal(p: Seq<u8>, pos: usize, end: usize, acc: usize, cap: usize) -> usize
    decreases end - pos,
{
    if pos >= end {
        acc
    } else {
        let digit = p[pos as int] - 0x30;
        let raised = acc * 10 + digit;
        let held = if raised > cap {
            (cap + 1) as usize
        } else {
            raised as usize
        };
        spec_decimal(p, (pos + 1) as usize, end, held, cap)
    }
}

/// A number read from a pattern: its value and the position after it.
#[derive(Clone, Copy, Debug, PartialEq, Eq, Structural)]
pub struct Number {
    pub value: usize,
    pub end: usize,
}

/// The number that starts at `pos`: its digits run to the first byte that
/// is none, and a value beyond `cap` is reported as `cap + 1`.
pub open spec fn spec_number(p: Seq<u8>, pos: usize, cap: usize) -> Number {
    let end = spec_digits_end(p, pos);
    Number { value: spec_decimal(p, pos, end, 0, cap), end }
}

pub fn number(p: &[u8], pos: usize, cap: usize) -> (n: Number)
    requires
        pos <= p@.len(),
        cap <= 0xffff,
    ensures
        n == spec_number(p@, pos, cap),
        pos <= n.end <= p@.len(),
        n.value <= cap + 1,
        n.end == pos <==> !(pos < p@.len() && spec_is_digit(p@[pos as int])),
{
    let mut at = pos;
    let mut acc: usize = 0;
    let ghost end = spec_digits_end(p@, pos);
    proof {
        assert(p@.len() == p.len());
        digits_end_bounds(p@, pos);
    }
    while at < p.len() && is_digit(p[at])
        invariant
            pos <= at <= end <= p@.len(),
            cap <= 0xffff,
            acc <= cap + 1,
            end == spec_digits_end(p@, at),
            spec_decimal(p@, pos, end, 0, cap) == spec_decimal(p@, at, end, acc, cap),
        decreases p@.len() - at,
    {
        let digit = (p[at] - 0x30) as usize;
        proof {
            digits_end_bounds(p@, (at + 1) as usize);
        }
        let raised = acc * 10 + digit;
        acc = if raised > cap {
            cap + 1
        } else {
            raised
        };
        at += 1;
    }
    Number { value: acc, end: at }
}

/// Digits end after where they began, and within the pattern.
pub proof fn digits_end_bounds(p: Seq<u8>, pos: usize)
    requires
        pos <= p.len() <= usize::MAX,
    ensures
        pos <= spec_digits_end(p, pos) <= p.len(),
    decreases p.len() - pos,
{
    if pos < p.len() && spec_is_digit(p[pos as int]) {
        digits_end_bounds(p, (pos + 1) as usize);
    }
}

/// The position after the word bytes that start at `pos`.
pub open spec fn spec_word_end(p: Seq<u8>, pos: usize) -> usize
    decreases p.len() - pos,
    when p.len() <= usize::MAX
{
    if pos < p.len() && spec_is_word(p[pos as int]) {
        spec_word_end(p, (pos + 1) as usize)
    } else {
        pos
    }
}

pub fn word_end(p: &[u8], pos: usize) -> (r: usize)
    requires
        pos <= p@.len(),
    ensures
        r == spec_word_end(p@, pos),
        pos <= r <= p@.len(),
        forall|i: int| pos <= i < r ==> spec_is_word(#[trigger] p@[i]),
{
    let mut at = pos;
    while at < p.len() && is_word(p[at])
        invariant
            pos <= at <= p@.len(),
            spec_word_end(p@, pos) == spec_word_end(p@, at),
            forall|i: int| pos <= i < at ==> spec_is_word(#[trigger] p@[i]),
        decreases p@.len() - at,
    {
        at += 1;
    }
    at
}

/// The position of the first `c` at or after `pos`, or the length of the
/// pattern where there is none.
pub open spec fn spec_find(p: Seq<u8>, pos: usize, c: u8) -> usize
    decreases p.len() - pos,
    when p.len() <= usize::MAX
{
    if pos < p.len() && p[pos as int] != c {
        spec_find(p, (pos + 1) as usize, c)
    } else {
        pos
    }
}

pub fn find(p: &[u8], pos: usize, c: u8) -> (r: usize)
    requires
        pos <= p@.len(),
    ensures
        r == spec_find(p@, pos, c),
        pos <= r <= p@.len(),
        r < p@.len() ==> p@[r as int] == c,
{
    let mut at = pos;
    while at < p.len() && p[at] != c
        invariant
            pos <= at <= p@.len(),
            spec_find(p@, pos, c) == spec_find(p@, at, c),
        decreases p@.len() - at,
    {
        at += 1;
    }
    at
}

/// A copy of the bytes `start..end` of the pattern.
pub fn copy_range(p: &[u8], start: usize, end: usize) -> (v: Vec<u8>)
    requires
        start <= end <= p@.len(),
    ensures
        v@ == p@.subrange(start as int, end as int),
{
    let mut v: Vec<u8> = Vec::with_capacity(end - start);
    let mut i = start;
    while i < end
        invariant
            start <= i <= end <= p@.len(),
            v@ == p@.subrange(start as int, i as int),
        decreases end - i,
    {
        v.push(p[i]);
        assert(v@ =~= p@.subrange(start as int, i + 1));
        i += 1;
    }
    v
}

} // verus!
