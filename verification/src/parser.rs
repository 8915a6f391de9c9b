//! The parser: the code that reads a pattern as the grammar says.

use crate::bytes::is_digit;
use crate::class::{add_kind, class, empty_table, escape, Escape};
use crate::grammar::{
    checked_counts, fault, has_nul, name_taken, one, one_set, spec_alternation,
    spec_alternatives, spec_atom, spec_body, spec_braces, spec_capture, spec_closer, spec_counts,
    spec_delimited, spec_escape_atom, spec_flags, spec_group, spec_is_mark, spec_item,
    spec_named_group, spec_named_ref, spec_parse, spec_quantified, spec_sequence, spec_special,
    spec_special_group, spec_switch, spec_verb, spec_wrapped, Counts, ParsedV, Span, Wrap, MAX_DEPTH,
};
use crate::program::{
    word_bytes, NameSlot, Node, MAX_GROUPS, MAX_REPEAT, SET_SIZE, UNBOUNDED,
};
use crate::scan::{copy_range, find, number, skip_blank, word_end};
use crate::syntax::{
    add_node, add_set, add_string, draft_ok, is_at, literal, names_are_below, new_builder,
    node_at, Builder,
    BuilderV,
    ErrorKind, Fault, Mode, BACKSLASH, BANG, CARET, COLON, COMMA, DOLLAR, DOT, EQUALS, GREATER,
    HASH, LBRACE, LBRACKET, LESS, LPAREN, MINUS, PIPE, PLUS, QUESTION, QUOTE, RBRACE, RPAREN, STAR,
};
use vstd::prelude::*;

verus! {

/// What a part of the parser read.
pub struct Parsed {
    pub node: Option<usize>,
    pub pos: usize,
    pub mode: Mode,
    pub b: Builder,
}

impl View for Parsed {
    type V = ParsedV;

    open spec fn view(&self) -> ParsedV {
        ParsedV { node: self.node, pos: self.pos, mode: self.mode, b: self.b@ }
    }
}

/// Whether `r` is what the grammar gives, `v`; and whether it is in order:
/// the tables well formed and no shorter than `before`, the node among
/// them, the position within the pattern and not before `from`, and a
/// fault within the pattern too.
pub open spec fn good(
    r: Result<Parsed, Fault>,
    v: Result<ParsedV, Fault>,
    p: Seq<u8>,
    from: int,
    before: BuilderV,
) -> bool {
    match r {
        Ok(x) => {
            &&& v == Ok::<ParsedV, Fault>(x@)
            &&& x.b@.wf()
            &&& from <= x.pos <= p.len()
            &&& x.b@.nodes.len() >= before.nodes.len()
            &&& x.b@.groups >= before.groups
            &&& x.b@.bound == before.bound
            &&& (x.node matches Some(n) ==> n < x.b@.nodes.len())
        },
        Err(f) => v == Err::<ParsedV, Fault>(f) && f.at <= p.len(),
    }
}

/// Appends node `n` and goes on at `pos`.
pub fn make(b: Builder, n: Node, pos: usize, mode: Mode) -> (r: Result<Parsed, Fault>)
    requires
        b@.wf(),
        draft_ok(
            n,
            b@.nodes.len() as int,
            b@.sets.len() as int,
            b@.strings.len() as int,
            b@.groups as int,
        ),
        node_at(n) <= b@.bound,
    ensures
        r is Ok,
        r->Ok_0@ == one(b@, n, pos, mode)->Ok_0,
        r->Ok_0.b@.wf(),
        r->Ok_0.pos == pos,
        r->Ok_0.node == Some(b@.nodes.len() as usize),
        r->Ok_0.b@.nodes.len() == b@.nodes.len() + 1,
        r->Ok_0.b@.groups == b@.groups,
        r->Ok_0.b@.bound == b@.bound,
{
    let (b, i) = add_node(b, n);
    Ok(Parsed { node: Some(i), pos, mode, b })
}

/// Appends a set and the node that names it, and goes on at `pos`.
pub fn make_set(b: Builder, table: Vec<bool>, pos: usize, mode: Mode) -> (r: Result<Parsed, Fault>)
    requires
        b@.wf(),
        table@.len() == SET_SIZE,
    ensures
        r is Ok,
        r->Ok_0@ == one_set(b@, table@, pos, mode)->Ok_0,
        r->Ok_0.b@.wf(),
        r->Ok_0.pos == pos,
        r->Ok_0.node == Some(b@.nodes.len() as usize),
        r->Ok_0.b@.nodes.len() == b@.nodes.len() + 1,
        r->Ok_0.b@.groups == b@.groups,
        r->Ok_0.b@.bound == b@.bound,
{
    let (b, s) = add_set(b, table);
    make(b, Node::Class(s), pos, mode)
}

/// Reads the name between the delimiter at `open` and the delimiter
/// `close`.
pub fn delimited(p: &[u8], open: usize, close: u8) -> (r: Result<Span, Fault>)
    requires
        open < p.len(),
    ensures
        r == spec_delimited(p@, open, close),
        r matches Ok(span) ==> open < span.start < span.end < p.len() && word_bytes(
            p@.subrange(span.start as int, span.end as int),
        ),
        r matches Err(f) ==> f.at <= p.len(),
{
    let start = open + 1;
    let end = word_end(p, start);
    if end == start || (start < p.len() && is_digit(p[start])) {
        Err(Fault { kind: ErrorKind::BadName, at: start })
    } else if !is_at(p, end, close) {
        Err(Fault { kind: ErrorKind::BadName, at: end })
    } else {
        proof {
            let name = p@.subrange(start as int, end as int);
            assert forall|i: int| 0 <= i < name.len() implies crate::bytes::spec_is_word(
                #[trigger] name[i],
            ) by {
                assert(name[i] == p@[start + i]);
            }
        }
        Ok(Span { start, end })
    }
}

pub fn closer(open: u8) -> (r: Option<u8>)
    ensures
        r == spec_closer(open),
{
    if open == LESS {
        Some(GREATER)
    } else if open == QUOTE {
        Some(QUOTE)
    } else if open == LBRACE {
        Some(RBRACE)
    } else {
        None
    }
}

/// Reads the back reference by name whose opening delimiter is at `open`.
pub fn named_ref(p: &[u8], open: usize, close: u8, at: usize, mode: Mode, b: Builder) -> (r: Result<
    Parsed,
    Fault,
>)
    requires
        open < p.len(),
        at <= p.len(),
        b@.wf(),
        b@.bound == p.len(),
    ensures
        good(r, spec_named_ref(p@, open, close, at, mode, b@), p@, open + 1, b@),
{
    match delimited(p, open, close) {
        Err(f) => Err(f),
        Ok(span) => {
            let (b, s) = add_string(b, copy_range(p, span.start, span.end));
            make(b, Node::NamedRef { name: s, caseless: mode.caseless, at }, span.end + 1, mode)
        },
    }
}

/// Reads what the letter or digit `c` after the backslash at `pos` stands
/// for.
pub fn special(p: &[u8], pos: usize, c: u8, mode: Mode, b: Builder) -> (r: Result<Parsed, Fault>)
    requires
        pos + 1 < p.len(),
        c == p@[pos + 1],
        b@.wf(),
        b@.bound == p.len(),
    ensures
        good(r, spec_special(p@, pos, c, mode, b@), p@, pos + 2, b@),
{
    let next = pos + 1;
    let end = pos + 2;
    if c == 0x62 {
        make(b, Node::WordBoundary { negate: false }, end, mode)
    } else if c == 0x42 {
        make(b, Node::WordBoundary { negate: true }, end, mode)
    } else if c == 0x41 {
        make(b, Node::SubjectStart, end, mode)
    } else if c == 0x7a {
        make(b, Node::SubjectEnd, end, mode)
    } else if c == 0x5a {
        make(b, Node::SubjectEndOptNewline, end, mode)
    } else if c == 0x47 {
        make(b, Node::SearchStart, end, mode)
    } else if is_digit(c) {
        let n = number(p, next, MAX_GROUPS);
        if n.value > MAX_GROUPS {
            Err(Fault { kind: ErrorKind::UndefinedGroup, at: pos })
        } else {
            make(b, Node::Backref { group: n.value, caseless: mode.caseless, at: pos }, n.end, mode)
        }
    } else if c == 0x6b {
        let close = if end < p.len() {
            closer(p[end])
        } else {
            None
        };
        match close {
            Some(close) => named_ref(p, end, close, pos, mode, b),
            None => Err(Fault { kind: ErrorKind::BadName, at: end }),
        }
    } else if mode.extra {
        Err(Fault { kind: ErrorKind::UnknownEscape, at: next })
    } else {
        make(b, literal(c, mode), end, mode)
    }
}

/// Reads the atom that the backslash at `pos` begins.
pub fn escape_atom(p: &[u8], pos: usize, mode: Mode, b: Builder) -> (r: Result<Parsed, Fault>)
    requires
        pos < p.len(),
        b@.wf(),
        b@.bound == p.len(),
    ensures
        good(r, spec_escape_atom(p@, pos, mode, b@), p@, pos + 1, b@),
{
    let next = pos + 1;
    if next >= p.len() {
        return Err(Fault { kind: ErrorKind::TrailingBackslash, at: next });
    }
    let e = escape(p, next);
    match e.what {
        Escape::Literal(c) => make(b, literal(c, mode), e.end, mode),
        Escape::Named(kind, negate) => make_set(
            b,
            add_kind(empty_table(), kind, negate),
            e.end,
            mode,
        ),
        Escape::Special(c) => special(p, pos, c, mode, b),
    }
}

pub fn check_counts(min: usize, max: usize, open: usize, end: usize) -> (r: Counts)
    requires
        open < usize::MAX,
    ensures
        r == checked_counts(min, max, open, end),
        r matches Counts::Given { min: lo, max: hi, end: e } ==> lo <= hi && e == end,
        r matches Counts::Bad(f) ==> f.at == open + 1 || f.at == end,
{
    if min > MAX_REPEAT || (max != UNBOUNDED && max > MAX_REPEAT) {
        Counts::Bad(Fault { kind: ErrorKind::NumberTooBig, at: open + 1 })
    } else if min > max {
        Counts::Bad(Fault { kind: ErrorKind::NumbersOutOfOrder, at: end })
    } else {
        Counts::Given { min, max, end }
    }
}

/// Reads the counts of the quantifier whose brace is at `pos`.
pub fn braces(p: &[u8], pos: usize) -> (r: Counts)
    requires
        pos < p.len(),
    ensures
        r == spec_braces(p@, pos),
        r matches Counts::Given { min, max, end } ==> min <= max && pos < end <= p.len(),
        r matches Counts::Bad(f) ==> f.at <= p.len(),
{
    let low = number(p, pos + 1, MAX_REPEAT);
    if low.end == pos + 1 {
        Counts::Absent
    } else if is_at(p, low.end, RBRACE) {
        check_counts(low.value, low.value, pos, low.end + 1)
    } else if is_at(p, low.end, COMMA) {
        let after = low.end + 1;
        if is_at(p, after, RBRACE) {
            check_counts(low.value, UNBOUNDED, pos, after + 1)
        } else {
            let high = number(p, after, MAX_REPEAT);
            if high.end == after || !is_at(p, high.end, RBRACE) {
                Counts::Absent
            } else {
                check_counts(low.value, high.value, pos, high.end + 1)
            }
        }
    } else {
        Counts::Absent
    }
}

/// Reads the counts of the quantifier at `pos`, if one stands there.
pub fn counts(p: &[u8], pos: usize) -> (r: Counts)
    requires
        pos <= p.len(),
    ensures
        r == spec_counts(p@, pos),
        r matches Counts::Given { min, max, end } ==> min <= max && pos < end <= p.len(),
        r matches Counts::Bad(f) ==> f.at <= p.len(),
{
    if is_at(p, pos, STAR) {
        Counts::Given { min: 0, max: UNBOUNDED, end: pos + 1 }
    } else if is_at(p, pos, PLUS) {
        Counts::Given { min: 1, max: UNBOUNDED, end: pos + 1 }
    } else if is_at(p, pos, QUESTION) {
        Counts::Given { min: 0, max: 1, end: pos + 1 }
    } else if is_at(p, pos, LBRACE) {
        braces(p, pos)
    } else {
        Counts::Absent
    }
}

/// Reads the quantifier that follows `atom`, if one does.
pub fn quantified(p: &[u8], atom: Parsed) -> (r: Result<Parsed, Fault>)
    requires
        atom.b@.wf(),
        atom.b@.bound == p.len(),
        atom.pos <= p.len(),
        atom.node matches Some(n) && n < atom.b@.nodes.len(),
    ensures
        good(r, spec_quantified(p@, atom@), p@, atom.pos as int, atom.b@),
{
    let at = if atom.mode.extended {
        skip_blank(p, atom.pos)
    } else {
        atom.pos
    };
    match counts(p, at) {
        Counts::Absent => Ok(atom),
        Counts::Bad(f) => Err(f),
        Counts::Given { min, max, end } => {
            let child = match atom.node {
                Some(n) => n,
                None => 0,
            };
            let mode = atom.mode;
            if is_at(p, end, PLUS) {
                let (b, base) = add_node(atom.b, Node::Repeat { child, min, max, lazy: false });
                let (b, outer) = add_node(b, Node::Atomic(base));
                Ok(Parsed { node: Some(outer), pos: end + 1, mode, b })
            } else if is_at(p, end, QUESTION) {
                make(atom.b, Node::Repeat { child, min, max, lazy: !mode.ungreedy }, end + 1, mode)
            } else {
                make(atom.b, Node::Repeat { child, min, max, lazy: mode.ungreedy }, end, mode)
            }
        },
    }
}

/// Whether the bytes `start..end` of the pattern equal `s`.
pub fn same_bytes(p: &[u8], start: usize, end: usize, s: &Vec<u8>) -> (r: bool)
    requires
        start <= end <= p.len(),
    ensures
        r == (p@.subrange(start as int, end as int) == s@),
{
    if s.len() != end - start {
        return false;
    }
    let mut i: usize = 0;
    while i < s.len()
        invariant
            start <= end <= p.len(),
            s.len() == end - start,
            i <= s.len(),
            forall|j: int| 0 <= j < i ==> p@[start + j] == s@[j],
        decreases s.len() - i,
    {
        if p[start + i] != s[i] {
            assert(p@.subrange(start as int, end as int)[i as int] != s@[i as int]);
            return false;
        }
        i += 1;
    }
    assert(p@.subrange(start as int, end as int) =~= s@);
    true
}

/// Whether a group of the tables has the name that the span holds.
pub fn is_name_taken(b: &Builder, p: &[u8], span: Span) -> (r: bool)
    requires
        b@.wf(),
        b@.bound == p.len(),
        span.start <= span.end <= p.len(),
    ensures
        r == name_taken(b@, p@.subrange(span.start as int, span.end as int)),
{
    let ghost name = p@.subrange(span.start as int, span.end as int);
    let mut j: usize = 0;
    proof {
        reveal(BuilderV::wf);
    }
    while j < b.names.len()
        invariant
            b@.wf(),
            span.start <= span.end <= p.len(),
            name == p@.subrange(span.start as int, span.end as int),
            j <= b.names.len(),
            forall|i: int| 0 <= i < j ==> b@.strings[b@.names[i].string as int] != name,
        decreases b.names.len() - j,
    {
        let slot = b.names[j];
        proof {
            reveal(BuilderV::wf);
        }
        assert(b@.names[j as int] == slot);
        assert(b@.strings[slot.string as int] == b.strings@[slot.string as int]@);
        if same_bytes(p, span.start, span.end, &b.strings[slot.string]) {
            return true;
        }
        j += 1;
    }
    false
}

pub fn is_mark(p: &[u8], pos: usize) -> (r: bool)
    requires
        pos <= p.len(),
    ensures
        r == spec_is_mark(p@, pos),
{
    p.len() - pos >= 4 && p[pos] == 0x4d && p[pos + 1] == 0x41 && p[pos + 2] == 0x52 && p[pos + 3]
        == 0x4b
}

/// Reads the verb whose first byte after `(*` is at `pos`.
pub fn verb(p: &[u8], pos: usize, mode: Mode, b: Builder) -> (r: Result<Parsed, Fault>)
    requires
        pos <= p.len(),
        b@.wf(),
        b@.bound == p.len(),
    ensures
        good(r, spec_verb(p@, pos, mode, b@), p@, pos as int, b@),
{
    let colon = if is_mark(p, pos) {
        pos + 4
    } else {
        pos
    };
    if !is_at(p, colon, COLON) {
        return Err(Fault { kind: ErrorKind::UnknownVerb, at: pos });
    }
    let start = colon + 1;
    let end = find(p, start, RPAREN);
    if end >= p.len() {
        Err(Fault { kind: ErrorKind::UnknownVerb, at: p.len() })
    } else if end == start {
        Err(Fault { kind: ErrorKind::UnknownVerb, at: start })
    } else {
        let (b, s) = add_string(b, copy_range(p, start, end));
        make(b, Node::Mark(s), end + 1, mode)
    }
}

pub fn switch(cur: Mode, c: u8, on: bool) -> (r: Option<Mode>)
    ensures
        r == spec_switch(cur, c, on),
{
    if c == 0x69 {
        Some(Mode { caseless: on, ..cur })
    } else if c == 0x6d {
        Some(Mode { multiline: on, ..cur })
    } else if c == 0x73 {
        Some(Mode { dotall: on, ..cur })
    } else if c == 0x78 {
        Some(Mode { extended: on, ..cur })
    } else if c == 0x55 {
        Some(Mode { ungreedy: on, ..cur })
    } else if c == 0x4a {
        Some(Mode { dupnames: on, ..cur })
    } else {
        None
    }
}

/// Counts one more capture group and gives its number.
pub fn open_group(b: Builder) -> (r: (Builder, usize))
    requires
        b@.wf(),
        b@.groups < MAX_GROUPS,
    ensures
        r.1 == b@.groups + 1,
        r.0@ == b@.with_groups(r.1),
        r.0@.wf(),
{
    let ghost before = b@;
    let mut b = b;
    let index = b.groups + 1;
    b.groups = index;
    proof {
        reveal(BuilderV::wf);
        let after = b@;
        assert forall|j: int| 0 <= j < after.nodes.len() implies draft_ok(
            #[trigger] after.nodes[j],
            j,
            after.sets.len() as int,
            after.strings.len() as int,
            after.groups as int,
        ) && node_at(after.nodes[j]) <= after.bound by {
            assert(after.nodes[j] == before.nodes[j]);
        }
        assert forall|j: int| 0 <= j < after.names.len() implies {
            let slot = #[trigger] after.names[j];
            slot.string < after.strings.len() && 1 <= slot.index <= after.groups && word_bytes(
                    after.strings[slot.string as int],
                ) && (j > 0 ==> after.names[j - 1].index < slot.index)
        } by {
            assert(after.names[j] == before.names[j]);
            if j > 0 {
                assert(after.names[j - 1] == before.names[j - 1]);
            }
        }
        assert(after.sets == before.sets);
    }
    (b, index)
}

/// Records a named group.
pub fn add_name(b: Builder, slot: NameSlot) -> (r: Builder)
    requires
        b@.wf(),
        slot.string < b@.strings.len(),
        1 <= slot.index <= b@.groups,
        word_bytes(b@.strings[slot.string as int]),
        b@.names.len() > 0 ==> b@.names.last().index < slot.index,
    ensures
        r@ == b@.with_name(slot),
        r@.wf(),
{
    let ghost before = b@;
    let mut b = b;
    b.names.push(slot);
    proof {
        reveal(BuilderV::wf);
        let after = b@;
        assert forall|j: int| 0 <= j < after.nodes.len() implies draft_ok(
            #[trigger] after.nodes[j],
            j,
            after.sets.len() as int,
            after.strings.len() as int,
            after.groups as int,
        ) && node_at(after.nodes[j]) <= after.bound by {
            assert(after.nodes[j] == before.nodes[j]);
        }
        assert forall|j: int| 0 <= j < after.names.len() implies {
            let slot = #[trigger] after.names[j];
            slot.string < after.strings.len() && 1 <= slot.index <= after.groups && word_bytes(
                    after.strings[slot.string as int],
                ) && (j > 0 ==> after.names[j - 1].index < slot.index)
        } by {
            if j < before.names.len() {
                assert(after.names[j] == before.names[j]);
            }
            if 0 < j {
                assert(after.names[j - 1] == before.names[j - 1]);
            }
        }
        assert(after.sets == before.sets);
    }
    b
}

/// Whether a wrap names a group that the tables have counted.
pub open spec fn wrap_ok(wrap: Wrap, b: BuilderV) -> bool {
    match wrap {
        Wrap::Capture(index) => 1 <= index <= b.groups,
        Wrap::Look { behind, negate, at } => at <= b.bound,
        _ => true,
    }
}

/// Reads the atom at `pos`.
pub fn atom(p: &[u8], pos: usize, mode: Mode, b: Builder, depth: usize) -> (r: Result<Parsed, Fault>)
    requires
        pos < p.len(),
        b@.wf(),
        b@.bound == p.len(),
    ensures
        good(r, spec_atom(p@, pos, mode, b@, depth as nat), p@, pos + 1, b@),
    decreases depth, 1nat, 0nat,
{
    let c = p[pos];
    let next = pos + 1;
    if c == LPAREN {
        group(p, pos, mode, b, depth)
    } else if c == LBRACKET {
        match class(p, next, mode) {
            Err(f) => Err(f),
            Ok(read) => make_set(b, read.table, read.end, mode),
        }
    } else if c == BACKSLASH {
        escape_atom(p, pos, mode, b)
    } else if c == DOT {
        make(
            b,
            if mode.dotall {
                Node::AnyByte
            } else {
                Node::AnyExceptNewline
            },
            next,
            mode,
        )
    } else if c == CARET {
        make(b, Node::LineStart { multiline: mode.multiline }, next, mode)
    } else if c == DOLLAR {
        make(
            b,
            Node::LineEnd { multiline: mode.multiline, end_only: mode.dollar_endonly },
            next,
            mode,
        )
    } else if c == STAR || c == PLUS || c == QUESTION {
        Err(Fault { kind: ErrorKind::NothingToRepeat, at: pos })
    } else {
        make(b, literal(c, mode), next, mode)
    }
}

/// Reads the atom at `pos` with its quantifier.
pub fn item(p: &[u8], pos: usize, mode: Mode, b: Builder, depth: usize) -> (r: Result<Parsed, Fault>)
    requires
        pos < p.len(),
        b@.wf(),
        b@.bound == p.len(),
    ensures
        good(r, spec_item(p@, pos, mode, b@, depth as nat), p@, pos + 1, b@),
    decreases depth, 2nat, 0nat,
{
    let ghost before = b@;
    match atom(p, pos, mode, b, depth) {
        Err(f) => Err(f),
        Ok(read) => if read.node.is_some() {
            let ghost mid = read.b@;
            let r = quantified(p, read);
            assert(good(r, spec_item(p@, pos, mode, before, depth as nat), p@, pos + 1, before));
            r
        } else {
            Ok(read)
        },
    }
}

/// Reads a sequence from `pos` on.
pub fn sequence(p: &[u8], pos: usize, mode: Mode, b: Builder, depth: usize) -> (r: Result<
    Parsed,
    Fault,
>)
    requires
        pos <= p.len(),
        b@.wf(),
        b@.bound == p.len(),
    ensures
        good(r, spec_sequence(p@, pos, mode, b@, None, depth as nat), p@, pos as int, b@),
        r matches Ok(x) ==> x.node is Some,
    decreases depth, 3nat, 0nat,
{
    let ghost goal = spec_sequence(p@, pos, mode, b@, None, depth as nat);
    let ghost before = b@;
    let mut at = pos;
    let mut cur_mode = mode;
    let mut cur = b;
    let mut left: Option<usize> = None;
    loop
        invariant
            pos <= at <= p.len(),
            cur@.wf(),
            cur@.bound == p.len(),
            cur@.nodes.len() >= before.nodes.len(),
            cur@.groups >= before.groups,
            left matches Some(n) ==> n < cur@.nodes.len(),
            before == b@,
            before.bound == p.len(),
            goal == spec_sequence(p@, pos, mode, before, None, depth as nat),
            goal == spec_sequence(p@, at, cur_mode, cur@, left, depth as nat),
        decreases p.len() - at,
    {
        let here = if cur_mode.extended {
            skip_blank(p, at)
        } else {
            at
        };
        if at >= p.len() || here >= p.len() || p[here] == PIPE || p[here] == RPAREN {
            return match left {
                Some(n) => Ok(Parsed { node: left, pos: here, mode: cur_mode, b: cur }),
                None => make(cur, Node::Empty, here, cur_mode),
            };
        }
        match item(p, here, cur_mode, cur, depth) {
            Err(f) => {
                return Err(f);
            },
            Ok(read) => {
                at = read.pos;
                cur_mode = read.mode;
                match (left, read.node) {
                    (Some(l), Some(r)) => {
                        let (joined, i) = add_node(read.b, Node::Concat(l, r));
                        cur = joined;
                        left = Some(i);
                    },
                    (Some(l), None) => {
                        cur = read.b;
                    },
                    (None, _) => {
                        left = read.node;
                        cur = read.b;
                    },
                }
            },
        }
    }
}

/// Reads the alternatives that follow `left`.
pub fn alternatives(p: &[u8], left: Parsed, depth: usize) -> (r: Result<Parsed, Fault>)
    requires
        left.pos <= p.len(),
        left.b@.wf(),
        left.b@.bound == p.len(),
        left.node matches Some(n) && n < left.b@.nodes.len(),
    ensures
        good(r, spec_alternatives(p@, left@, depth as nat), p@, left.pos as int, left.b@),
        r matches Ok(x) ==> x.node is Some,
    decreases depth, 4nat, 0nat,
{
    let ghost goal = spec_alternatives(p@, left@, depth as nat);
    let ghost before = left@;
    let mut cur = left;
    loop
        invariant
            before.pos <= cur.pos <= p.len(),
            cur.b@.wf(),
            cur.b@.bound == p.len(),
            cur.b@.nodes.len() >= before.b.nodes.len(),
            cur.b@.groups >= before.b.groups,
            cur.node matches Some(n) && n < cur.b@.nodes.len(),
            before == left@,
            before.b.bound == p.len(),
            goal == spec_alternatives(p@, before, depth as nat),
            goal == spec_alternatives(p@, cur@, depth as nat),
        decreases p.len() - cur.pos,
    {
        if !is_at(p, cur.pos, PIPE) {
            return Ok(cur);
        }
        let first = match cur.node {
            Some(n) => n,
            None => 0,
        };
        match sequence(p, cur.pos + 1, cur.mode, cur.b, depth) {
            Err(f) => {
                return Err(f);
            },
            Ok(right) => {
                let second = match right.node {
                    Some(n) => n,
                    None => 0,
                };
                let (b, i) = add_node(right.b, Node::Alt(first, second));
                cur = Parsed { node: Some(i), pos: right.pos, mode: right.mode, b };
            },
        }
    }
}

/// Reads one sequence, or several with `|` between them.
pub fn alternation(p: &[u8], pos: usize, mode: Mode, b: Builder, depth: usize) -> (r: Result<
    Parsed,
    Fault,
>)
    requires
        pos <= p.len(),
        b@.wf(),
        b@.bound == p.len(),
    ensures
        good(r, spec_alternation(p@, pos, mode, b@, depth as nat), p@, pos as int, b@),
        r matches Ok(x) ==> x.node is Some,
    decreases depth, 5nat, 0nat,
{
    match sequence(p, pos, mode, b, depth) {
        Err(f) => Err(f),
        Ok(first) => alternatives(p, first, depth),
    }
}

/// Closes the body `read` of a group at its `)` and wraps it.
pub fn wrapped(p: &[u8], read: Parsed, outer: Mode, wrap: Wrap) -> (r: Result<Parsed, Fault>)
    requires
        read.pos < p.len(),
        read.b@.wf(),
        read.b@.bound == p.len(),
        read.node matches Some(n) && n < read.b@.nodes.len(),
        wrap_ok(wrap, read.b@),
    ensures
        good(r, spec_wrapped(read@, outer, wrap), p@, read.pos + 1, read.b@),
        r matches Ok(x) ==> x.node is Some,
{
    let child = match read.node {
        Some(n) => n,
        None => 0,
    };
    let end = read.pos + 1;
    match wrap {
        Wrap::Plain => Ok(Parsed { node: read.node, pos: end, mode: outer, b: read.b }),
        Wrap::Capture(index) => make(read.b, Node::Group { child, index }, end, outer),
        Wrap::Atomic => make(read.b, Node::Atomic(child), end, outer),
        Wrap::Look { behind, negate, at } => make(
            read.b,
            Node::Look { child, behind, negate, width: 0, at },
            end,
            outer,
        ),
    }
}

/// Reads the body of a group from `pos` to its `)`, and wraps it.
pub fn body(
    p: &[u8],
    pos: usize,
    inner: Mode,
    outer: Mode,
    b: Builder,
    depth: usize,
    wrap: Wrap,
) -> (r: Result<Parsed, Fault>)
    requires
        pos <= p.len(),
        b@.wf(),
        b@.bound == p.len(),
        wrap_ok(wrap, b@),
    ensures
        good(r, spec_body(p@, pos, inner, outer, b@, depth as nat, wrap), p@, pos + 1, b@),
        r matches Ok(x) ==> x.node is Some,
    decreases depth, 6nat, 0nat,
{
    match alternation(p, pos, inner, b, depth) {
        Err(f) => Err(f),
        Ok(read) => if is_at(p, read.pos, RPAREN) {
            wrapped(p, read, outer, wrap)
        } else {
            Err(Fault { kind: ErrorKind::MissingParen, at: p.len() })
        },
    }
}

/// Reads the capture group whose body begins at `pos`.
pub fn capture(p: &[u8], pos: usize, at: usize, mode: Mode, b: Builder, depth: usize) -> (r: Result<
    Parsed,
    Fault,
>)
    requires
        at < pos <= p.len(),
        b@.wf(),
        b@.bound == p.len(),
    ensures
        good(r, spec_capture(p@, pos, at, mode, b@, depth as nat), p@, pos + 1, b@),
    decreases depth, 7nat, 0nat,
{
    if b.groups >= MAX_GROUPS {
        Err(Fault { kind: ErrorKind::TooManyGroups, at })
    } else {
        let (b, index) = open_group(b);
        body(p, pos, mode, mode, b, depth, Wrap::Capture(index))
    }
}

/// Reads the named capture group whose name opens at `open`.
pub fn named_group(
    p: &[u8],
    open: usize,
    close: u8,
    at: usize,
    mode: Mode,
    b: Builder,
    depth: usize,
) -> (r: Result<Parsed, Fault>)
    requires
        at < open < p.len(),
        b@.wf(),
        b@.bound == p.len(),
    ensures
        good(r, spec_named_group(p@, open, close, at, mode, b@, depth as nat), p@, open + 1, b@),
    decreases depth, 8nat, 0nat,
{
    match delimited(p, open, close) {
        Err(f) => Err(f),
        Ok(span) => {
            if !mode.dupnames && is_name_taken(&b, p, span) {
                Err(Fault { kind: ErrorKind::DuplicateName, at: span.start })
            } else if b.groups >= MAX_GROUPS {
                Err(Fault { kind: ErrorKind::TooManyGroups, at })
            } else {
                proof {
                    names_are_below(b@);
                }
                let (b, index) = open_group(b);
                let (b, string) = add_string(b, copy_range(p, span.start, span.end));
                let b = add_name(b, NameSlot { string, index });
                body(p, span.end + 1, mode, mode, b, depth, Wrap::Capture(index))
            }
        },
    }
}

/// Reads the switches from `pos` on in a group that began `(?`.
pub fn flags(p: &[u8], pos: usize, outer: Mode, b: Builder, depth: usize) -> (r: Result<
    Parsed,
    Fault,
>)
    requires
        pos <= p.len(),
        b@.wf(),
        b@.bound == p.len(),
    ensures
        good(r, spec_flags(p@, pos, outer, outer, true, b@, depth as nat), p@, pos + 1, b@),
    decreases depth, 9nat, 0nat,
{
    let ghost goal = spec_flags(p@, pos, outer, outer, true, b@, depth as nat);
    let mut at = pos;
    let mut cur = outer;
    let mut on = true;
    loop
        invariant
            pos <= at <= p.len(),
            b@.wf(),
            b@.bound == p.len(),
            goal == spec_flags(p@, pos, outer, outer, true, b@, depth as nat),
            goal == spec_flags(p@, at, outer, cur, on, b@, depth as nat),
        decreases p.len() - at,
    {
        if at >= p.len() {
            return Err(Fault { kind: ErrorKind::UnknownGroup, at });
        }
        let c = p[at];
        if c == RPAREN {
            return Ok(Parsed { node: None, pos: at + 1, mode: cur, b });
        } else if c == COLON {
            return body(p, at + 1, cur, outer, b, depth, Wrap::Plain);
        } else if c == MINUS {
            on = false;
        } else {
            match switch(cur, c, on) {
                Some(switched) => {
                    cur = switched;
                },
                None => {
                    return Err(Fault { kind: ErrorKind::UnknownGroup, at });
                },
            }
        }
        at += 1;
    }
}

/// Reads the group that begins `(?` at `pos`.
pub fn special_group(p: &[u8], pos: usize, mode: Mode, b: Builder, depth: usize) -> (r: Result<
    Parsed,
    Fault,
>)
    requires
        pos + 1 < p.len(),
        b@.wf(),
        b@.bound == p.len(),
    ensures
        good(r, spec_special_group(p@, pos, mode, b@, depth as nat), p@, pos + 2, b@),
    decreases depth, 10nat, 0nat,
{
    let q = pos + 2;
    if q >= p.len() {
        return Err(Fault { kind: ErrorKind::UnknownGroup, at: q });
    }
    let r = pos + 3;
    let c = p[q];
    if c == COLON {
        body(p, r, mode, mode, b, depth, Wrap::Plain)
    } else if c == EQUALS {
        body(p, r, mode, mode, b, depth, Wrap::Look { behind: false, negate: false, at: pos })
    } else if c == BANG {
        body(p, r, mode, mode, b, depth, Wrap::Look { behind: false, negate: true, at: pos })
    } else if c == GREATER {
        body(p, r, mode, mode, b, depth, Wrap::Atomic)
    } else if c == HASH {
        let end = find(p, r, RPAREN);
        if end >= p.len() {
            Err(Fault { kind: ErrorKind::MissingParen, at: p.len() })
        } else {
            Ok(Parsed { node: None, pos: end + 1, mode, b })
        }
    } else if c == LESS {
        if is_at(p, r, EQUALS) {
            body(p, pos + 4, mode, mode, b, depth, Wrap::Look { behind: true, negate: false, at: pos })
        } else if is_at(p, r, BANG) {
            body(p, pos + 4, mode, mode, b, depth, Wrap::Look { behind: true, negate: true, at: pos })
        } else {
            named_group(p, q, GREATER, pos, mode, b, depth)
        }
    } else if c == QUOTE {
        named_group(p, q, QUOTE, pos, mode, b, depth)
    } else if c == 0x50 {
        if is_at(p, r, LESS) {
            named_group(p, r, GREATER, pos, mode, b, depth)
        } else if is_at(p, r, EQUALS) {
            named_ref(p, r, RPAREN, pos, mode, b)
        } else {
            Err(Fault { kind: ErrorKind::UnknownGroup, at: r })
        }
    } else {
        flags(p, q, mode, b, depth)
    }
}

/// Reads the group whose `(` is at `pos`.
pub fn group(p: &[u8], pos: usize, mode: Mode, b: Builder, depth: usize) -> (r: Result<Parsed, Fault>)
    requires
        pos < p.len(),
        b@.wf(),
        b@.bound == p.len(),
    ensures
        good(r, spec_group(p@, pos, mode, b@, depth as nat), p@, pos + 1, b@),
    decreases depth, 0nat, 0nat,
{
    let next = pos + 1;
    if depth == 0 {
        return Err(Fault { kind: ErrorKind::TooDeep, at: pos });
    }
    let d = depth - 1;
    if is_at(p, next, STAR) {
        verb(p, pos + 2, mode, b)
    } else if is_at(p, next, QUESTION) {
        special_group(p, pos, mode, b, d)
    } else if mode.no_auto_capture {
        body(p, next, mode, mode, b, d, Wrap::Plain)
    } else {
        capture(p, next, pos, mode, b, d)
    }
}

/// Whether a pattern holds a NUL byte.
pub fn contains_nul(p: &[u8]) -> (r: bool)
    ensures
        r == has_nul(p@),
{
    let mut i: usize = 0;
    while i < p.len()
        invariant
            i <= p.len(),
            forall|j: int| 0 <= j < i ==> p@[j] != 0,
        decreases p.len() - i,
    {
        if p[i] == 0 {
            return true;
        }
        i += 1;
    }
    false
}

/// Reads the pattern `p` under `mode`.
pub fn parse(p: &[u8], mode: Mode) -> (r: Result<Parsed, Fault>)
    ensures
        match r {
            Ok(x) => spec_parse(p@, mode) == Ok::<ParsedV, Fault>(x@) && x.b@.wf() && x.pos
                == p.len() && x.b@.bound == p.len() && (x.node matches Some(n) && n
                < x.b@.nodes.len()),
            Err(f) => spec_parse(p@, mode) == Err::<ParsedV, Fault>(f) && f.at <= p.len(),
        },
{
    if contains_nul(p) {
        return Err(Fault { kind: ErrorKind::NulInPattern, at: 0 });
    }
    match alternation(p, 0, mode, new_builder(p.len()), MAX_DEPTH) {
        Err(f) => Err(f),
        Ok(whole) => if whole.pos < p.len() {
            Err(Fault { kind: ErrorKind::UnmatchedParen, at: whole.pos })
        } else {
            Ok(whole)
        },
    }
}

} // verus!
