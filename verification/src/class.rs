//! Escapes and character classes.

use crate::bytes::{
    hex_value, is_alpha, is_digit, is_lower, is_space, is_upper, is_word, spec_hex_value,
    spec_is_alpha, spec_is_digit, spec_is_lower, spec_is_space, spec_is_upper, spec_is_word,
};
use crate::program::SET_SIZE;
use crate::syntax::{
    is_at, spec_is_at, ErrorKind, Fault, Mode, BACKSLASH, CARET, MINUS, RBRACKET,
};
use vstd::prelude::*;

verus! {

/// A class with a name of its own.
#[derive(Clone, Copy, Debug, PartialEq, Eq, Structural)]
pub enum Kind {
    Digit,
    Word,
    Space,
}

/// Whether `x` belongs to the class, or with `negate` does not.
pub open spec fn spec_kind_has(kind: Kind, negate: bool, x: u8) -> bool {
    (match kind {
        Kind::Digit => spec_is_digit(x),
        Kind::Word => spec_is_word(x),
        Kind::Space => spec_is_space(x),
    }) != negate
}

#[verifier::when_used_as_spec(spec_kind_has)]
pub fn kind_has(kind: Kind, negate: bool, x: u8) -> (r: bool)
    ensures
        r == spec_kind_has(kind, negate, x),
{
    (match kind {
        Kind::Digit => is_digit(x),
        Kind::Word => is_word(x),
        Kind::Space => is_space(x),
    }) != negate
}

/// A letter in its other case; any other byte unchanged.
pub open spec fn spec_swap_case(x: u8) -> u8 {
    if spec_is_upper(x) {
        (x + 0x20) as u8
    } else if spec_is_lower(x) {
        (x - 0x20) as u8
    } else {
        x
    }
}

#[verifier::when_used_as_spec(spec_swap_case)]
pub fn swap_case(x: u8) -> (r: u8)
    ensures
        r == spec_swap_case(x),
{
    if is_upper(x) {
        x + 0x20
    } else if is_lower(x) {
        x - 0x20
    } else {
        x
    }
}

/// Whether `x` lies in `lo..=hi`, or with `caseless` its other case does.
pub open spec fn spec_in_range(x: u8, lo: u8, hi: u8, caseless: bool) -> bool {
    (lo <= x <= hi) || (caseless && lo <= spec_swap_case(x) <= hi)
}

#[verifier::when_used_as_spec(spec_in_range)]
pub fn in_range(x: u8, lo: u8, hi: u8, caseless: bool) -> (r: bool)
    ensures
        r == spec_in_range(x, lo, hi, caseless),
{
    (lo <= x && x <= hi) || (caseless && lo <= swap_case(x) && swap_case(x) <= hi)
}

/// The set without a member.
pub open spec fn no_bytes() -> Seq<bool> {
    Seq::new(SET_SIZE as nat, |i: int| false)
}

/// `t` and the bytes of a range.
pub open spec fn with_range(t: Seq<bool>, lo: u8, hi: u8, caseless: bool) -> Seq<bool> {
    Seq::new(SET_SIZE as nat, |i: int| t[i] || spec_in_range(i as u8, lo, hi, caseless))
}

/// `t` and the bytes of a named class.
pub open spec fn with_kind(t: Seq<bool>, kind: Kind, negate: bool) -> Seq<bool> {
    Seq::new(SET_SIZE as nat, |i: int| t[i] || spec_kind_has(kind, negate, i as u8))
}

/// The bytes that `t` lacks.
pub open spec fn negated(t: Seq<bool>) -> Seq<bool> {
    Seq::new(SET_SIZE as nat, |i: int| !t[i])
}

pub fn empty_table() -> (t: Vec<bool>)
    ensures
        t@ == no_bytes(),
{
    let mut t: Vec<bool> = Vec::with_capacity(SET_SIZE);
    let mut i: usize = 0;
    while i < SET_SIZE
        invariant
            i <= SET_SIZE,
            t@.len() == i,
            forall|j: int| 0 <= j < i ==> !t@[j],
        decreases SET_SIZE - i,
    {
        t.push(false);
        i += 1;
    }
    assert(t@ =~= no_bytes());
    t
}

pub fn add_range(t: Vec<bool>, lo: u8, hi: u8, caseless: bool) -> (r: Vec<bool>)
    requires
        t@.len() == SET_SIZE,
    ensures
        r@ == with_range(t@, lo, hi, caseless),
{
    let mut r = t;
    let mut i: usize = 0;
    while i < SET_SIZE
        invariant
            i <= SET_SIZE,
            r@.len() == SET_SIZE,
            t@.len() == SET_SIZE,
            forall|j: int| 0 <= j < i ==> r@[j] == (t@[j] || spec_in_range(j as u8, lo, hi, caseless)),
            forall|j: int| i <= j < SET_SIZE ==> r@[j] == t@[j],
        decreases SET_SIZE - i,
    {
        if in_range(i as u8, lo, hi, caseless) {
            r[i] = true;
        }
        i += 1;
    }
    assert(r@ =~= with_range(t@, lo, hi, caseless));
    r
}

pub fn add_kind(t: Vec<bool>, kind: Kind, negate: bool) -> (r: Vec<bool>)
    requires
        t@.len() == SET_SIZE,
    ensures
        r@ == with_kind(t@, kind, negate),
{
    let mut r = t;
    let mut i: usize = 0;
    while i < SET_SIZE
        invariant
            i <= SET_SIZE,
            r@.len() == SET_SIZE,
            t@.len() == SET_SIZE,
            forall|j: int| 0 <= j < i ==> r@[j] == (t@[j] || spec_kind_has(kind, negate, j as u8)),
            forall|j: int| i <= j < SET_SIZE ==> r@[j] == t@[j],
        decreases SET_SIZE - i,
    {
        if kind_has(kind, negate, i as u8) {
            r[i] = true;
        }
        i += 1;
    }
    assert(r@ =~= with_kind(t@, kind, negate));
    r
}

pub fn negate_table(t: Vec<bool>) -> (r: Vec<bool>)
    requires
        t@.len() == SET_SIZE,
    ensures
        r@ == negated(t@),
{
    let mut r = t;
    let mut i: usize = 0;
    while i < SET_SIZE
        invariant
            i <= SET_SIZE,
            r@.len() == SET_SIZE,
            t@.len() == SET_SIZE,
            forall|j: int| 0 <= j < i ==> r@[j] == !t@[j],
            forall|j: int| i <= j < SET_SIZE ==> r@[j] == t@[j],
        decreases SET_SIZE - i,
    {
        let flipped = !r[i];
        r[i] = flipped;
        i += 1;
    }
    assert(r@ =~= negated(t@));
    r
}

/// What a backslash and the bytes after it stand for.
#[derive(Clone, Copy, Debug, PartialEq, Eq, Structural)]
pub enum Escape {
    /// One byte.
    Literal(u8),
    /// A named class, or with the flag its complement.
    Named(Kind, bool),
    /// A letter or digit whose meaning depends on where it stands.
    Special(u8),
}

/// An escape and the position after it.
#[derive(Clone, Copy, Debug, PartialEq, Eq, Structural)]
pub struct Escaped {
    pub what: Escape,
    pub end: usize,
}

pub open spec fn spec_is_octal(b: u8) -> bool {
    0x30 <= b <= 0x37
}

#[verifier::when_used_as_spec(spec_is_octal)]
pub fn is_octal(b: u8) -> (r: bool)
    ensures
        r == spec_is_octal(b),
{
    0x30 <= b && b <= 0x37
}

/// The byte written as `\0` and up to two octal digits; `pos` is at the `0`.
pub open spec fn spec_octal(p: Seq<u8>, pos: usize) -> Escaped {
    let a = (pos + 1) as usize;
    let b = (pos + 2) as usize;
    if a < p.len() && spec_is_octal(p[a as int]) {
        let first = (p[a as int] - 0x30) as u8;
        if b < p.len() && spec_is_octal(p[b as int]) {
            let second = (p[b as int] - 0x30) as u8;
            Escaped { what: Escape::Literal((first * 8 + second) as u8), end: (pos + 3) as usize }
        } else {
            Escaped { what: Escape::Literal(first), end: b }
        }
    } else {
        Escaped { what: Escape::Literal(0), end: a }
    }
}

pub fn octal(p: &[u8], pos: usize) -> (r: Escaped)
    requires
        pos < p.len(),
    ensures
        r == spec_octal(p@, pos),
        pos < r.end <= p.len(),
{
    let a = pos + 1;
    if a < p.len() && is_octal(p[a]) {
        let first = p[a] - 0x30;
        let b = pos + 2;
        if b < p.len() && is_octal(p[b]) {
            let second = p[b] - 0x30;
            Escaped { what: Escape::Literal(first * 8 + second), end: pos + 3 }
        } else {
            Escaped { what: Escape::Literal(first), end: b }
        }
    } else {
        Escaped { what: Escape::Literal(0), end: a }
    }
}

/// The byte written as `\x` and up to two hexadecimal digits; `pos` is at
/// the `x`.
pub open spec fn spec_hex(p: Seq<u8>, pos: usize) -> Escaped {
    let a = (pos + 1) as usize;
    let b = (pos + 2) as usize;
    if a < p.len() && spec_hex_value(p[a as int]) is Some {
        let first = spec_hex_value(p[a as int])->0;
        if b < p.len() && spec_hex_value(p[b as int]) is Some {
            let second = spec_hex_value(p[b as int])->0;
            Escaped { what: Escape::Literal((first * 16 + second) as u8), end: (pos + 3) as usize }
        } else {
            Escaped { what: Escape::Literal(first), end: b }
        }
    } else {
        Escaped { what: Escape::Literal(0), end: a }
    }
}

pub fn hex(p: &[u8], pos: usize) -> (r: Escaped)
    requires
        pos < p.len(),
    ensures
        r == spec_hex(p@, pos),
        pos < r.end <= p.len(),
{
    let a = pos + 1;
    let first = if a < p.len() {
        hex_value(p[a])
    } else {
        None
    };
    match first {
        None => Escaped { what: Escape::Literal(0), end: a },
        Some(x) => {
            let b = pos + 2;
            let second = if b < p.len() {
                hex_value(p[b])
            } else {
                None
            };
            match second {
                None => Escaped { what: Escape::Literal(x), end: b },
                Some(y) => Escaped { what: Escape::Literal(x * 16 + y), end: pos + 3 },
            }
        },
    }
}

/// What the escape means whose first byte after the backslash is at `pos`.
pub open spec fn spec_escape(p: Seq<u8>, pos: usize) -> Escaped {
    let c = p[pos as int];
    let end = (pos + 1) as usize;
    if c == 0x64 {
        Escaped { what: Escape::Named(Kind::Digit, false), end }
    } else if c == 0x44 {
        Escaped { what: Escape::Named(Kind::Digit, true), end }
    } else if c == 0x77 {
        Escaped { what: Escape::Named(Kind::Word, false), end }
    } else if c == 0x57 {
        Escaped { what: Escape::Named(Kind::Word, true), end }
    } else if c == 0x73 {
        Escaped { what: Escape::Named(Kind::Space, false), end }
    } else if c == 0x53 {
        Escaped { what: Escape::Named(Kind::Space, true), end }
    } else if c == 0x6e {
        Escaped { what: Escape::Literal(0x0a), end }
    } else if c == 0x72 {
        Escaped { what: Escape::Literal(0x0d), end }
    } else if c == 0x74 {
        Escaped { what: Escape::Literal(0x09), end }
    } else if c == 0x66 {
        Escaped { what: Escape::Literal(0x0c), end }
    } else if c == 0x65 {
        Escaped { what: Escape::Literal(0x1b), end }
    } else if c == 0x61 {
        Escaped { what: Escape::Literal(0x07), end }
    } else if c == 0x30 {
        spec_octal(p, pos)
    } else if c == 0x78 {
        spec_hex(p, pos)
    } else if spec_is_alpha(c) || spec_is_digit(c) {
        Escaped { what: Escape::Special(c), end }
    } else {
        Escaped { what: Escape::Literal(c), end }
    }
}

pub fn escape(p: &[u8], pos: usize) -> (r: Escaped)
    requires
        pos < p.len(),
    ensures
        r == spec_escape(p@, pos),
        pos < r.end <= p.len(),
{
    let c = p[pos];
    let end = pos + 1;
    if c == 0x64 {
        Escaped { what: Escape::Named(Kind::Digit, false), end }
    } else if c == 0x44 {
        Escaped { what: Escape::Named(Kind::Digit, true), end }
    } else if c == 0x77 {
        Escaped { what: Escape::Named(Kind::Word, false), end }
    } else if c == 0x57 {
        Escaped { what: Escape::Named(Kind::Word, true), end }
    } else if c == 0x73 {
        Escaped { what: Escape::Named(Kind::Space, false), end }
    } else if c == 0x53 {
        Escaped { what: Escape::Named(Kind::Space, true), end }
    } else if c == 0x6e {
        Escaped { what: Escape::Literal(0x0a), end }
    } else if c == 0x72 {
        Escaped { what: Escape::Literal(0x0d), end }
    } else if c == 0x74 {
        Escaped { what: Escape::Literal(0x09), end }
    } else if c == 0x66 {
        Escaped { what: Escape::Literal(0x0c), end }
    } else if c == 0x65 {
        Escaped { what: Escape::Literal(0x1b), end }
    } else if c == 0x61 {
        Escaped { what: Escape::Literal(0x07), end }
    } else if c == 0x30 {
        octal(p, pos)
    } else if c == 0x78 {
        hex(p, pos)
    } else if is_alpha(c) || is_digit(c) {
        Escaped { what: Escape::Special(c), end }
    } else {
        Escaped { what: Escape::Literal(c), end }
    }
}

/// One member of a class: a byte or a named class, and the position after
/// it.
pub open spec fn spec_class_atom(p: Seq<u8>, pos: usize, mode: Mode) -> Result<Escaped, Fault> {
    let next = (pos + 1) as usize;
    if p[pos as int] != BACKSLASH {
        Ok(Escaped { what: Escape::Literal(p[pos as int]), end: next })
    } else if next >= p.len() {
        Err(Fault { kind: ErrorKind::TrailingBackslash, at: next })
    } else {
        let e = spec_escape(p, next);
        match e.what {
            Escape::Special(c) => if c == 0x62 {
                Ok(Escaped { what: Escape::Literal(0x08), end: e.end })
            } else if mode.extra {
                Err(Fault { kind: ErrorKind::UnknownEscape, at: next })
            } else {
                Ok(Escaped { what: Escape::Literal(c), end: e.end })
            },
            _ => Ok(e),
        }
    }
}

pub fn class_atom(p: &[u8], pos: usize, mode: Mode) -> (r: Result<Escaped, Fault>)
    requires
        pos < p.len(),
    ensures
        r == spec_class_atom(p@, pos, mode),
        r matches Ok(e) ==> pos < e.end <= p.len() && !(e.what is Special),
        r matches Err(f) ==> f.at <= p.len(),
{
    let next = pos + 1;
    if p[pos] != BACKSLASH {
        Ok(Escaped { what: Escape::Literal(p[pos]), end: next })
    } else if next >= p.len() {
        Err(Fault { kind: ErrorKind::TrailingBackslash, at: next })
    } else {
        let e = escape(p, next);
        match e.what {
            Escape::Special(c) => if c == 0x62 {
                Ok(Escaped { what: Escape::Literal(0x08), end: e.end })
            } else if mode.extra {
                Err(Fault { kind: ErrorKind::UnknownEscape, at: next })
            } else {
                Ok(Escaped { what: Escape::Literal(c), end: e.end })
            },
            _ => Ok(e),
        }
    }
}

/// A class as read: its table and the position after its `]`.
pub struct ClassV {
    pub table: Seq<bool>,
    pub end: usize,
}

/// The class member at `pos`, a byte, a range or a named class, added to
/// `table`; `end` is the position after the member.
pub open spec fn spec_class_member(p: Seq<u8>, pos: usize, mode: Mode, table: Seq<bool>) -> Result<
    ClassV,
    Fault,
> {
    match spec_class_atom(p, pos, mode) {
        Err(f) => Err(f),
        Ok(low) => match low.what {
            Escape::Literal(lo) => {
                let after = (low.end + 1) as usize;
                let single = ClassV {
                    table: with_range(table, lo, lo, mode.caseless),
                    end: low.end,
                };
                if spec_is_at(p, low.end, MINUS) && after < p.len() && p[after as int] != RBRACKET {
                    match spec_class_atom(p, after, mode) {
                        Err(f) => Err(f),
                        Ok(high) => match high.what {
                            Escape::Literal(hi) => if hi < lo {
                                Err(Fault { kind: ErrorKind::RangeOutOfOrder, at: after })
                            } else {
                                Ok(
                                    ClassV {
                                        table: with_range(table, lo, hi, mode.caseless),
                                        end: high.end,
                                    },
                                )
                            },
                            _ => Ok(single),
                        },
                    }
                } else {
                    Ok(single)
                }
            },
            Escape::Named(kind, negate) => Ok(
                ClassV { table: with_kind(table, kind, negate), end: low.end },
            ),
            Escape::Special(c) => Err(Fault { kind: ErrorKind::UnknownEscape, at: pos }),
        },
    }
}

/// The rest of a class from `pos` on, where `table` holds what was read so
/// far. A `]` that comes `first` is a member, not the end.
pub open spec fn spec_class_rest(
    p: Seq<u8>,
    pos: usize,
    mode: Mode,
    table: Seq<bool>,
    first: bool,
) -> Result<ClassV, Fault>
    decreases p.len() - pos,
{
    if pos >= p.len() {
        Err(Fault { kind: ErrorKind::MissingBracket, at: p.len() as usize })
    } else if p[pos as int] == RBRACKET && !first {
        Ok(ClassV { table, end: (pos + 1) as usize })
    } else {
        match spec_class_member(p, pos, mode, table) {
            Err(f) => Err(f),
            Ok(m) => if pos < m.end <= p.len() {
                spec_class_rest(p, m.end, mode, m.table, false)
            } else {
                // A member takes at least one byte; the test keeps the
                // definition well-founded.
                Err(Fault { kind: ErrorKind::MissingBracket, at: pos })
            },
        }
    }
}

/// The class whose first byte after the `[` is at `pos`.
pub open spec fn spec_class(p: Seq<u8>, pos: usize, mode: Mode) -> Result<ClassV, Fault> {
    if spec_is_at(p, pos, CARET) {
        match spec_class_rest(p, (pos + 1) as usize, mode, no_bytes(), true) {
            Ok(c) => Ok(ClassV { table: negated(c.table), end: c.end }),
            Err(f) => Err(f),
        }
    } else {
        spec_class_rest(p, pos, mode, no_bytes(), true)
    }
}

/// A class as read: its table and the position after its `]`.
pub struct Class {
    pub table: Vec<bool>,
    pub end: usize,
}

impl View for Class {
    type V = ClassV;

    open spec fn view(&self) -> ClassV {
        ClassV { table: self.table@, end: self.end }
    }
}

/// Whether `r` is what the grammar says, lies within the pattern after
/// `pos`, and has a full table.
pub open spec fn class_agrees(r: Result<Class, Fault>, v: Result<ClassV, Fault>, pos: usize, len: nat) -> bool {
    match r {
        Ok(c) => v == Ok::<ClassV, Fault>(c@) && pos < c.end <= len && c.table@.len() == SET_SIZE,
        Err(f) => v == Err::<ClassV, Fault>(f) && f.at <= len,
    }
}

pub fn class_member(p: &[u8], pos: usize, mode: Mode, table: Vec<bool>) -> (r: Result<Class, Fault>)
    requires
        pos < p.len(),
        table@.len() == SET_SIZE,
    ensures
        class_agrees(r, spec_class_member(p@, pos, mode, table@), pos, p@.len()),
{
    let low = match class_atom(p, pos, mode) {
        Err(f) => {
            return Err(f);
        },
        Ok(low) => low,
    };
    match low.what {
        Escape::Literal(lo) => {
            if is_at(p, low.end, MINUS) && low.end + 1 < p.len() && p[low.end + 1] != RBRACKET {
                let after = low.end + 1;
                let high = match class_atom(p, after, mode) {
                    Err(f) => {
                        return Err(f);
                    },
                    Ok(high) => high,
                };
                match high.what {
                    Escape::Literal(hi) => {
                        if hi < lo {
                            Err(Fault { kind: ErrorKind::RangeOutOfOrder, at: after })
                        } else {
                            Ok(Class { table: add_range(table, lo, hi, mode.caseless), end: high.end })
                        }
                    },
                    _ => Ok(Class { table: add_range(table, lo, lo, mode.caseless), end: low.end }),
                }
            } else {
                Ok(Class { table: add_range(table, lo, lo, mode.caseless), end: low.end })
            }
        },
        Escape::Named(kind, negate) => Ok(
            Class { table: add_kind(table, kind, negate), end: low.end },
        ),
        Escape::Special(c) => Err(Fault { kind: ErrorKind::UnknownEscape, at: pos }),
    }
}

pub fn class_rest(p: &[u8], pos: usize, mode: Mode, table: Vec<bool>, first: bool) -> (r: Result<
    Class,
    Fault,
>)
    requires
        pos <= p.len(),
        table@.len() == SET_SIZE,
    ensures
        class_agrees(r, spec_class_rest(p@, pos, mode, table@, first), pos, p@.len()),
{
    let ghost goal = spec_class_rest(p@, pos, mode, table@, first);
    let mut at = pos;
    let mut members = table;
    let mut fresh = first;
    loop
        invariant
            pos <= at <= p.len(),
            members@.len() == SET_SIZE,
            goal == spec_class_rest(p@, pos, mode, table@, first),
            goal == spec_class_rest(p@, at, mode, members@, fresh),
        decreases p.len() - at,
    {
        if at >= p.len() {
            return Err(Fault { kind: ErrorKind::MissingBracket, at: p.len() });
        }
        if p[at] == RBRACKET && !fresh {
            return Ok(Class { table: members, end: at + 1 });
        }
        match class_member(p, at, mode, members) {
            Err(f) => {
                return Err(f);
            },
            Ok(m) => {
                members = m.table;
                at = m.end;
            },
        }
        fresh = false;
    }
}

/// Reads the class whose first byte after the `[` is at `pos`.
pub fn class(p: &[u8], pos: usize, mode: Mode) -> (r: Result<Class, Fault>)
    requires
        0 < pos <= p.len(),
    ensures
        class_agrees(r, spec_class(p@, pos, mode), pos, p@.len()),
{
    if is_at(p, pos, CARET) {
        match class_rest(p, pos + 1, mode, empty_table(), true) {
            Ok(c) => Ok(Class { table: negate_table(c.table), end: c.end }),
            Err(f) => Err(f),
        }
    } else {
        class_rest(p, pos, mode, empty_table(), true)
    }
}

} // verus!
