//! The grammar of patterns, as functions from a pattern to the tables that
//! it stands for.
//!
//! Every function reads from a position and gives either a fault or what it
//! read: the number of the node it made, if it made one, the position after
//! it, the mode that holds from there on, and the tables with the new nodes
//! appended. Nesting is bounded by `depth`.

use crate::bytes::spec_is_digit;
use crate::class::{no_bytes, spec_class, spec_escape, with_kind, Escape};
use crate::program::{NameSlot, Node, MAX_GROUPS, MAX_REPEAT, UNBOUNDED};
use crate::scan::{spec_find, spec_number, spec_skip_blank, spec_word_end};
use crate::syntax::{
    no_tables, spec_is_at, spec_literal, BuilderV, ErrorKind, Fault, Mode, BACKSLASH, BANG, CARET, COLON,
    COMMA, DOLLAR, DOT, EQUALS, GREATER, HASH, LBRACE, LBRACKET, LESS, LPAREN, MINUS, PIPE, PLUS,
    QUESTION, QUOTE, RBRACE, RPAREN, STAR,
};
use vstd::prelude::*;

verus! {

/// How deep groups may nest.
pub const MAX_DEPTH: usize = 200;

/// What a part of the grammar read.
pub struct ParsedV {
    pub node: Option<usize>,
    pub pos: usize,
    pub mode: Mode,
    pub b: BuilderV,
}

/// What becomes of the body of a group once it is closed.
#[derive(Clone, Copy, Debug)]
pub enum Wrap {
    /// Nothing: the group only groups.
    Plain,
    /// A capture group with this number.
    Capture(usize),
    Atomic,
    /// An assertion that began at offset `at`.
    Look { behind: bool, negate: bool, at: usize },
}

pub open spec fn fault<T>(kind: ErrorKind, at: usize) -> Result<T, Fault> {
    Err(Fault { kind, at })
}

/// The result that appends node `n` and goes on at `pos`.
pub open spec fn one(b: BuilderV, n: Node, pos: usize, mode: Mode) -> Result<ParsedV, Fault> {
    Ok(ParsedV { node: Some(b.nodes.len() as usize), pos, mode, b: b.with_node(n) })
}

/// The result that appends a set and the node that names it.
pub open spec fn one_set(b: BuilderV, table: Seq<bool>, pos: usize, mode: Mode) -> Result<
    ParsedV,
    Fault,
> {
    one(b.with_set(table), Node::Class(b.sets.len() as usize), pos, mode)
}

/// A name in the pattern: the bytes `start..end`.
#[derive(Clone, Copy, Debug, PartialEq, Eq, Structural)]
pub struct Span {
    pub start: usize,
    pub end: usize,
}

/// The name between the delimiter at `open` and the delimiter `close`: a
/// run of word bytes that is not empty and starts with no digit.
pub open spec fn spec_delimited(p: Seq<u8>, open: usize, close: u8) -> Result<Span, Fault> {
    let start = (open + 1) as usize;
    let end = spec_word_end(p, start);
    if end == start || (start < p.len() && spec_is_digit(p[start as int])) {
        fault(ErrorKind::BadName, start)
    } else if !spec_is_at(p, end, close) {
        fault(ErrorKind::BadName, end)
    } else {
        Ok(Span { start, end })
    }
}

/// The delimiter that closes a name opened by `open`, if `open` opens one.
pub open spec fn spec_closer(open: u8) -> Option<u8> {
    if open == LESS {
        Some(GREATER)
    } else if open == QUOTE {
        Some(QUOTE)
    } else if open == LBRACE {
        Some(RBRACE)
    } else {
        None
    }
}

/// The back reference by name whose opening delimiter is at `open`; `at` is
/// the offset at which the whole construct began.
pub open spec fn spec_named_ref(
    p: Seq<u8>,
    open: usize,
    close: u8,
    at: usize,
    mode: Mode,
    b: BuilderV,
) -> Result<ParsedV, Fault> {
    match spec_delimited(p, open, close) {
        Err(f) => Err(f),
        Ok(span) => one(
            b.with_string(p.subrange(span.start as int, span.end as int)),
            Node::NamedRef { name: b.strings.len() as usize, caseless: mode.caseless, at },
            (span.end + 1) as usize,
            mode,
        ),
    }
}

/// What a letter or digit after a backslash stands for outside a class;
/// `pos` is at the backslash.
pub open spec fn spec_special(p: Seq<u8>, pos: usize, c: u8, mode: Mode, b: BuilderV) -> Result<
    ParsedV,
    Fault,
> {
    let next = (pos + 1) as usize;
    let end = (pos + 2) as usize;
    if c == 0x62 {
        one(b, Node::WordBoundary { negate: false }, end, mode)
    } else if c == 0x42 {
        one(b, Node::WordBoundary { negate: true }, end, mode)
    } else if c == 0x41 {
        one(b, Node::SubjectStart, end, mode)
    } else if c == 0x7a {
        one(b, Node::SubjectEnd, end, mode)
    } else if c == 0x5a {
        one(b, Node::SubjectEndOptNewline, end, mode)
    } else if c == 0x47 {
        one(b, Node::SearchStart, end, mode)
    } else if spec_is_digit(c) {
        let n = spec_number(p, next, MAX_GROUPS);
        if n.value > MAX_GROUPS {
            fault(ErrorKind::UndefinedGroup, pos)
        } else {
            one(b, Node::Backref { group: n.value, caseless: mode.caseless, at: pos }, n.end, mode)
        }
    } else if c == 0x6b {
        if end < p.len() && spec_closer(p[end as int]) is Some {
            spec_named_ref(p, end, spec_closer(p[end as int])->0, pos, mode, b)
        } else {
            fault(ErrorKind::BadName, end)
        }
    } else if mode.extra {
        fault(ErrorKind::UnknownEscape, next)
    } else {
        one(b, spec_literal(c, mode), end, mode)
    }
}

/// The atom that the backslash at `pos` begins.
pub open spec fn spec_escape_atom(p: Seq<u8>, pos: usize, mode: Mode, b: BuilderV) -> Result<
    ParsedV,
    Fault,
> {
    let next = (pos + 1) as usize;
    if next >= p.len() {
        fault(ErrorKind::TrailingBackslash, next)
    } else {
        let e = spec_escape(p, next);
        match e.what {
            Escape::Literal(c) => one(b, spec_literal(c, mode), e.end, mode),
            Escape::Named(kind, negate) => one_set(
                b,
                with_kind(no_bytes(), kind, negate),
                e.end,
                mode,
            ),
            Escape::Special(c) => spec_special(p, pos, c, mode, b),
        }
    }
}

/// How often a quantifier lets its atom repeat, and where it ends.
#[derive(Clone, Copy, Debug, PartialEq, Eq, Structural)]
pub enum Counts {
    /// There is no quantifier here.
    Absent,
    Given { min: usize, max: usize, end: usize },
    Bad(Fault),
}

/// The counts in braces, checked: neither beyond `MAX_REPEAT`, nor the
/// lower above the upper.
pub open spec fn checked_counts(min: usize, max: usize, open: usize, end: usize) -> Counts {
    if min > MAX_REPEAT || (max != UNBOUNDED && max > MAX_REPEAT) {
        Counts::Bad(Fault { kind: ErrorKind::NumberTooBig, at: (open + 1) as usize })
    } else if min > max {
        Counts::Bad(Fault { kind: ErrorKind::NumbersOutOfOrder, at: end })
    } else {
        Counts::Given { min, max, end }
    }
}

/// The counts of the quantifier `{n}`, `{n,}` or `{n,m}` whose brace is at
/// `pos`. Braces that hold anything else are no quantifier.
pub open spec fn spec_braces(p: Seq<u8>, pos: usize) -> Counts {
    let low = spec_number(p, (pos + 1) as usize, MAX_REPEAT);
    if low.end == pos + 1 {
        Counts::Absent
    } else if spec_is_at(p, low.end, RBRACE) {
        checked_counts(low.value, low.value, pos, (low.end + 1) as usize)
    } else if spec_is_at(p, low.end, COMMA) {
        let after = (low.end + 1) as usize;
        if spec_is_at(p, after, RBRACE) {
            checked_counts(low.value, UNBOUNDED, pos, (after + 1) as usize)
        } else {
            let high = spec_number(p, after, MAX_REPEAT);
            if high.end == after || !spec_is_at(p, high.end, RBRACE) {
                Counts::Absent
            } else {
                checked_counts(low.value, high.value, pos, (high.end + 1) as usize)
            }
        }
    } else {
        Counts::Absent
    }
}

/// The counts of the quantifier at `pos`, if one stands there.
pub open spec fn spec_counts(p: Seq<u8>, pos: usize) -> Counts {
    let end = (pos + 1) as usize;
    if spec_is_at(p, pos, STAR) {
        Counts::Given { min: 0, max: UNBOUNDED, end }
    } else if spec_is_at(p, pos, PLUS) {
        Counts::Given { min: 1, max: UNBOUNDED, end }
    } else if spec_is_at(p, pos, QUESTION) {
        Counts::Given { min: 0, max: 1, end }
    } else if spec_is_at(p, pos, LBRACE) {
        spec_braces(p, pos)
    } else {
        Counts::Absent
    }
}

/// The atom `atom` with the quantifier that follows it, if one does. A `?`
/// after the quantifier turns its greed around, a `+` makes it possessive.
/// In extended mode blanks may stand between the atom and the quantifier.
pub open spec fn spec_quantified(p: Seq<u8>, atom: ParsedV) -> Result<ParsedV, Fault> {
    let at = if atom.mode.extended {
        spec_skip_blank(p, atom.pos)
    } else {
        atom.pos
    };
    match spec_counts(p, at) {
        Counts::Absent => Ok(atom),
        Counts::Bad(f) => Err(f),
        Counts::Given { min, max, end } => {
            let child = atom.node->0;
            let after = (end + 1) as usize;
            let base = atom.b.nodes.len() as usize;
            if spec_is_at(p, end, PLUS) {
                Ok(
                    ParsedV {
                        node: Some((base + 1) as usize),
                        pos: after,
                        mode: atom.mode,
                        b: atom.b.with_node(
                            Node::Repeat { child, min, max, lazy: false },
                        ).with_node(Node::Atomic(base)),
                    },
                )
            } else if spec_is_at(p, end, QUESTION) {
                one(
                    atom.b,
                    Node::Repeat { child, min, max, lazy: !atom.mode.ungreedy },
                    after,
                    atom.mode,
                )
            } else {
                one(atom.b, Node::Repeat { child, min, max, lazy: atom.mode.ungreedy }, end, atom.mode)
            }
        },
    }
}

/// Whether a group of the tables has the name `name`.
pub open spec fn name_taken(b: BuilderV, name: Seq<u8>) -> bool {
    exists|j: int| 0 <= j < b.names.len() && #[trigger] b.strings[b.names[j].string as int] == name
}

/// Whether the bytes `MARK` stand at `pos`.
pub open spec fn spec_is_mark(p: Seq<u8>, pos: usize) -> bool {
    pos + 4 <= p.len() && p[pos as int] == 0x4d && p[pos + 1] == 0x41 && p[pos + 2] == 0x52 && p[pos
        + 3] == 0x4b
}

/// The verb whose first byte after `(*` is at `pos`: a mark, written
/// `(*MARK:name)` or `(*:name)`.
pub open spec fn spec_verb(p: Seq<u8>, pos: usize, mode: Mode, b: BuilderV) -> Result<ParsedV, Fault> {
    let colon = if spec_is_mark(p, pos) {
        (pos + 4) as usize
    } else {
        pos
    };
    if !spec_is_at(p, colon, COLON) {
        fault(ErrorKind::UnknownVerb, pos)
    } else {
        let start = (colon + 1) as usize;
        let end = spec_find(p, start, RPAREN);
        if end >= p.len() {
            fault(ErrorKind::UnknownVerb, p.len() as usize)
        } else if end == start {
            fault(ErrorKind::UnknownVerb, start)
        } else {
            one(
                b.with_string(p.subrange(start as int, end as int)),
                Node::Mark(b.strings.len() as usize),
                (end + 1) as usize,
                mode,
            )
        }
    }
}

/// The mode `cur` with the switch that the letter `c` names set to `on`,
/// if `c` names one.
pub open spec fn spec_switch(cur: Mode, c: u8, on: bool) -> Option<Mode> {
    if c == 0x69 {
        Some(Mode { caseless: on, ..cur })
    } else if c == 0x6d {
        Some(Mode { multiline: on, ..cur })
    } else if c == 0x73 {
        Some(Mode { dotall: on, ..cur })
    } else if c == 0x78 {
        Some(Mode { extended: on, ..cur })
    } else if c == 0x55 {
        Some(Mode { ungreedy: on, ..cur })
    } else if c == 0x4a {
        Some(Mode { dupnames: on, ..cur })
    } else {
        None
    }
}

/// The atom at `pos`, which is within the pattern.
pub open spec fn spec_atom(p: Seq<u8>, pos: usize, mode: Mode, b: BuilderV, depth: nat) -> Result<
    ParsedV,
    Fault,
>
    decreases depth, 1nat, 0nat,
{
    let c = p[pos as int];
    let next = (pos + 1) as usize;
    if c == LPAREN {
        spec_group(p, pos, mode, b, depth)
    } else if c == LBRACKET {
        match spec_class(p, next, mode) {
            Err(f) => Err(f),
            Ok(class) => one_set(b, class.table, class.end, mode),
        }
    } else if c == BACKSLASH {
        spec_escape_atom(p, pos, mode, b)
    } else if c == DOT {
        one(
            b,
            if mode.dotall {
                Node::AnyByte
            } else {
                Node::AnyExceptNewline
            },
            next,
            mode,
        )
    } else if c == CARET {
        one(b, Node::LineStart { multiline: mode.multiline }, next, mode)
    } else if c == DOLLAR {
        one(
            b,
            Node::LineEnd { multiline: mode.multiline, end_only: mode.dollar_endonly },
            next,
            mode,
        )
    } else if c == STAR || c == PLUS || c == QUESTION {
        fault(ErrorKind::NothingToRepeat, pos)
    } else {
        one(b, spec_literal(c, mode), next, mode)
    }
}

/// The atom at `pos` with its quantifier.
pub open spec fn spec_item(p: Seq<u8>, pos: usize, mode: Mode, b: BuilderV, depth: nat) -> Result<
    ParsedV,
    Fault,
>
    decreases depth, 2nat, 0nat,
{
    match spec_atom(p, pos, mode, b, depth) {
        Err(f) => Err(f),
        Ok(atom) => if atom.node is Some {
            spec_quantified(p, atom)
        } else {
            Ok(atom)
        },
    }
}

/// The rest of a sequence from `pos` on; `left` is the node of what the
/// sequence holds so far. The sequence ends before a `|`, before a `)` and
/// at the end of the pattern.
pub open spec fn spec_sequence(
    p: Seq<u8>,
    pos: usize,
    mode: Mode,
    b: BuilderV,
    left: Option<usize>,
    depth: nat,
) -> Result<ParsedV, Fault>
    decreases depth, 3nat, p.len() - pos,
{
    let at = if mode.extended {
        spec_skip_blank(p, pos)
    } else {
        pos
    };
    if pos >= p.len() || at >= p.len() || p[at as int] == PIPE || p[at as int] == RPAREN {
        match left {
            Some(n) => Ok(ParsedV { node: left, pos: at, mode, b }),
            None => one(b, Node::Empty, at, mode),
        }
    } else {
        match spec_item(p, at, mode, b, depth) {
            Err(f) => Err(f),
            Ok(item) => if !(pos < item.pos <= p.len()) {
                // An item takes at least one byte of the pattern; the test
                // keeps the definition well-founded.
                Ok(item)
            } else {
                match (left, item.node) {
                    (Some(l), Some(r)) => spec_sequence(
                        p,
                        item.pos,
                        item.mode,
                        item.b.with_node(Node::Concat(l, r)),
                        Some(item.b.nodes.len() as usize),
                        depth,
                    ),
                    (Some(l), None) => spec_sequence(p, item.pos, item.mode, item.b, left, depth),
                    (None, _) => spec_sequence(p, item.pos, item.mode, item.b, item.node, depth),
                }
            },
        }
    }
}

/// The alternatives that follow `left`, each after a `|`.
pub open spec fn spec_alternatives(p: Seq<u8>, left: ParsedV, depth: nat) -> Result<ParsedV, Fault>
    decreases depth, 4nat, p.len() - left.pos,
{
    if spec_is_at(p, left.pos, PIPE) {
        match spec_sequence(p, (left.pos + 1) as usize, left.mode, left.b, None, depth) {
            Err(f) => Err(f),
            Ok(right) => if !(left.pos < right.pos <= p.len()) {
                // A `|` was passed; the test keeps the definition
                // well-founded.
                Ok(right)
            } else {
                spec_alternatives(
                    p,
                    ParsedV {
                        node: Some(right.b.nodes.len() as usize),
                        pos: right.pos,
                        mode: right.mode,
                        b: right.b.with_node(Node::Alt(left.node->0, right.node->0)),
                    },
                    depth,
                )
            },
        }
    } else {
        Ok(left)
    }
}

/// One sequence, or several with `|` between them.
pub open spec fn spec_alternation(p: Seq<u8>, pos: usize, mode: Mode, b: BuilderV, depth: nat) -> Result<
    ParsedV,
    Fault,
>
    decreases depth, 5nat, 0nat,
{
    match spec_sequence(p, pos, mode, b, None, depth) {
        Err(f) => Err(f),
        Ok(first) => spec_alternatives(p, first, depth),
    }
}

/// The body `body` of a group, closed at its `)` and wrapped; after the
/// group `outer` holds again.
pub open spec fn spec_wrapped(body: ParsedV, outer: Mode, wrap: Wrap) -> Result<ParsedV, Fault> {
    let child = body.node->0;
    let end = (body.pos + 1) as usize;
    match wrap {
        Wrap::Plain => Ok(ParsedV { node: body.node, pos: end, mode: outer, b: body.b }),
        Wrap::Capture(index) => one(body.b, Node::Group { child, index }, end, outer),
        Wrap::Atomic => one(body.b, Node::Atomic(child), end, outer),
        Wrap::Look { behind, negate, at } => one(
            body.b,
            Node::Look { child, behind, negate, width: 0, at },
            end,
            outer,
        ),
    }
}

/// The body of a group from `pos` to its `)`, read under `inner`, and
/// wrapped.
pub open spec fn spec_body(
    p: Seq<u8>,
    pos: usize,
    inner: Mode,
    outer: Mode,
    b: BuilderV,
    depth: nat,
    wrap: Wrap,
) -> Result<ParsedV, Fault>
    decreases depth, 6nat, 0nat,
{
    match spec_alternation(p, pos, inner, b, depth) {
        Err(f) => Err(f),
        Ok(body) => if spec_is_at(p, body.pos, RPAREN) {
            spec_wrapped(body, outer, wrap)
        } else {
            fault(ErrorKind::MissingParen, p.len() as usize)
        },
    }
}

/// The capture group whose body begins at `pos`.
pub open spec fn spec_capture(p: Seq<u8>, pos: usize, at: usize, mode: Mode, b: BuilderV, depth: nat) -> Result<
    ParsedV,
    Fault,
>
    decreases depth, 7nat, 0nat,
{
    if b.groups >= MAX_GROUPS {
        fault(ErrorKind::TooManyGroups, at)
    } else {
        let index = (b.groups + 1) as usize;
        spec_body(p, pos, mode, mode, b.with_groups(index), depth, Wrap::Capture(index))
    }
}

/// The named capture group whose name opens with the delimiter at `open`;
/// `at` is the offset of its `(`.
pub open spec fn spec_named_group(
    p: Seq<u8>,
    open: usize,
    close: u8,
    at: usize,
    mode: Mode,
    b: BuilderV,
    depth: nat,
) -> Result<ParsedV, Fault>
    decreases depth, 8nat, 0nat,
{
    match spec_delimited(p, open, close) {
        Err(f) => Err(f),
        Ok(span) => {
            let name = p.subrange(span.start as int, span.end as int);
            if !mode.dupnames && name_taken(b, name) {
                fault(ErrorKind::DuplicateName, span.start)
            } else if b.groups >= MAX_GROUPS {
                fault(ErrorKind::TooManyGroups, at)
            } else {
                let index = (b.groups + 1) as usize;
                spec_body(
                    p,
                    (span.end + 1) as usize,
                    mode,
                    mode,
                    b.with_groups(index).with_string(name).with_name(
                        NameSlot { string: b.strings.len() as usize, index },
                    ),
                    depth,
                    Wrap::Capture(index),
                )
            }
        },
    }
}

/// The switches from `pos` on in a group that began `(?`; `outer` is the
/// mode before the group and `cur` the mode as switched so far.
pub open spec fn spec_flags(
    p: Seq<u8>,
    pos: usize,
    outer: Mode,
    cur: Mode,
    on: bool,
    b: BuilderV,
    depth: nat,
) -> Result<ParsedV, Fault>
    decreases depth, 9nat, p.len() - pos,
    when p.len() <= usize::MAX
{
    if pos >= p.len() {
        fault(ErrorKind::UnknownGroup, pos)
    } else {
        let c = p[pos as int];
        let next = (pos + 1) as usize;
        if c == RPAREN {
            Ok(ParsedV { node: None, pos: next, mode: cur, b })
        } else if c == COLON {
            spec_body(p, next, cur, outer, b, depth, Wrap::Plain)
        } else if c == MINUS {
            spec_flags(p, next, outer, cur, false, b, depth)
        } else {
            match spec_switch(cur, c, on) {
                Some(switched) => spec_flags(p, next, outer, switched, on, b, depth),
                None => fault(ErrorKind::UnknownGroup, pos),
            }
        }
    }
}

/// The group that begins `(?` at `pos`.
pub open spec fn spec_special_group(p: Seq<u8>, pos: usize, mode: Mode, b: BuilderV, depth: nat) -> Result<
    ParsedV,
    Fault,
>
    decreases depth, 10nat, 0nat,
{
    let q = (pos + 2) as usize;
    let r = (pos + 3) as usize;
    let s = (pos + 4) as usize;
    if q >= p.len() {
        fault(ErrorKind::UnknownGroup, q)
    } else {
        let c = p[q as int];
        if c == COLON {
            spec_body(p, r, mode, mode, b, depth, Wrap::Plain)
        } else if c == EQUALS {
            spec_body(p, r, mode, mode, b, depth, Wrap::Look { behind: false, negate: false, at: pos })
        } else if c == BANG {
            spec_body(p, r, mode, mode, b, depth, Wrap::Look { behind: false, negate: true, at: pos })
        } else if c == GREATER {
            spec_body(p, r, mode, mode, b, depth, Wrap::Atomic)
        } else if c == HASH {
            let end = spec_find(p, r, RPAREN);
            if end >= p.len() {
                fault(ErrorKind::MissingParen, p.len() as usize)
            } else {
                Ok(ParsedV { node: None, pos: (end + 1) as usize, mode, b })
            }
        } else if c == LESS {
            if spec_is_at(p, r, EQUALS) {
                spec_body(
                    p,
                    s,
                    mode,
                    mode,
                    b,
                    depth,
                    Wrap::Look { behind: true, negate: false, at: pos },
                )
            } else if spec_is_at(p, r, BANG) {
                spec_body(p, s, mode, mode, b, depth, Wrap::Look { behind: true, negate: true, at: pos })
            } else {
                spec_named_group(p, q, GREATER, pos, mode, b, depth)
            }
        } else if c == QUOTE {
            spec_named_group(p, q, QUOTE, pos, mode, b, depth)
        } else if c == 0x50 {
            if spec_is_at(p, r, LESS) {
                spec_named_group(p, r, GREATER, pos, mode, b, depth)
            } else if spec_is_at(p, r, EQUALS) {
                spec_named_ref(p, r, RPAREN, pos, mode, b)
            } else {
                fault(ErrorKind::UnknownGroup, r)
            }
        } else {
            spec_flags(p, q, mode, mode, true, b, depth)
        }
    }
}

/// The group whose `(` is at `pos`.
pub open spec fn spec_group(p: Seq<u8>, pos: usize, mode: Mode, b: BuilderV, depth: nat) -> Result<
    ParsedV,
    Fault,
>
    decreases depth, 0nat, 0nat,
{
    let next = (pos + 1) as usize;
    if depth == 0 {
        fault(ErrorKind::TooDeep, pos)
    } else {
        let d = (depth - 1) as nat;
        if spec_is_at(p, next, STAR) {
            spec_verb(p, (pos + 2) as usize, mode, b)
        } else if spec_is_at(p, next, QUESTION) {
            spec_special_group(p, pos, mode, b, d)
        } else if mode.no_auto_capture {
            spec_body(p, next, mode, mode, b, d, Wrap::Plain)
        } else {
            spec_capture(p, next, pos, mode, b, d)
        }
    }
}

/// Whether a pattern holds a NUL byte.
pub open spec fn has_nul(p: Seq<u8>) -> bool {
    exists|i: int| 0 <= i < p.len() && p[i] == 0
}

/// The tables that the pattern `p` stands for under `mode`. A pattern with
/// a NUL byte is refused before anything is read; a `)` that closes nothing
/// is refused where it stands.
pub open spec fn spec_parse(p: Seq<u8>, mode: Mode) -> Result<ParsedV, Fault> {
    if has_nul(p) {
        fault(ErrorKind::NulInPattern, 0)
    } else {
        match spec_alternation(p, 0, mode, no_tables(p.len() as usize), MAX_DEPTH as nat) {
            Err(f) => Err(f),
            Ok(whole) => if whole.pos < p.len() {
                fault(ErrorKind::UnmatchedParen, whole.pos)
            } else {
                Ok(whole)
            },
        }
    }
}

} // verus!
