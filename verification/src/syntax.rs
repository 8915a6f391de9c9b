//! What the parser works with: faults, modes, and the tables under
//! construction.

use crate::bytes::{is_alpha, spec_is_alpha, spec_to_lower, to_lower};
use crate::program::{tables, texts, word_bytes, NameSlot, Node, MAX_GROUPS, SET_SIZE};
use vstd::prelude::*;

verus! {

/// Why a pattern was refused.
#[derive(Clone, Copy, Debug, PartialEq, Eq, Structural)]
pub enum ErrorKind {
    NulInPattern,
    TrailingBackslash,
    UnknownEscape,
    MissingBracket,
    RangeOutOfOrder,
    NothingToRepeat,
    NumbersOutOfOrder,
    NumberTooBig,
    MissingParen,
    UnmatchedParen,
    UnknownGroup,
    BadName,
    DuplicateName,
    UnknownVerb,
    TooManyGroups,
    TooDeep,
    UndefinedGroup,
    LookbehindNotFixed,
    InconsistentNewline,
}

/// A refusal: the reason, and the offset in the pattern at which parsing
/// could not go on.
#[derive(Clone, Copy, Debug, PartialEq, Eq, Structural)]
pub struct Fault {
    pub kind: ErrorKind,
    pub at: usize,
}

/// The switches that change how the rest of a group is read.
#[derive(Clone, Copy, Debug, PartialEq, Eq, Structural)]
pub struct Mode {
    pub caseless: bool,
    pub multiline: bool,
    pub dotall: bool,
    pub extended: bool,
    pub ungreedy: bool,
    pub dupnames: bool,
    pub no_auto_capture: bool,
    pub dollar_endonly: bool,
    pub extra: bool,
}

pub const BACKSLASH: u8 = 0x5c;

pub const LPAREN: u8 = 0x28;

pub const RPAREN: u8 = 0x29;

pub const LBRACKET: u8 = 0x5b;

pub const RBRACKET: u8 = 0x5d;

pub const LBRACE: u8 = 0x7b;

pub const RBRACE: u8 = 0x7d;

pub const STAR: u8 = 0x2a;

pub const PLUS: u8 = 0x2b;

pub const QUESTION: u8 = 0x3f;

pub const DOT: u8 = 0x2e;

pub const CARET: u8 = 0x5e;

pub const DOLLAR: u8 = 0x24;

pub const PIPE: u8 = 0x7c;

pub const MINUS: u8 = 0x2d;

pub const COMMA: u8 = 0x2c;

pub const COLON: u8 = 0x3a;

pub const EQUALS: u8 = 0x3d;

pub const BANG: u8 = 0x21;

pub const LESS: u8 = 0x3c;

pub const GREATER: u8 = 0x3e;

pub const QUOTE: u8 = 0x27;

pub const HASH: u8 = 0x23;

pub const LINEFEED: u8 = 0x0a;

/// Whether the byte at `pos` is `c`.
pub open spec fn spec_is_at(p: Seq<u8>, pos: usize, c: u8) -> bool {
    pos < p.len() && p[pos as int] == c
}

pub fn is_at(p: &[u8], pos: usize, c: u8) -> (r: bool)
    ensures
        r == spec_is_at(p@, pos, c),
{
    pos < p.len() && p[pos] == c
}

/// The tables of a pattern while it is being read.
pub struct Builder {
    pub nodes: Vec<Node>,
    pub sets: Vec<Vec<bool>>,
    pub strings: Vec<Vec<u8>>,
    pub names: Vec<NameSlot>,
    /// The number of capture groups opened so far.
    pub groups: usize,
    /// The length of the pattern: no node stands at an offset beyond it.
    pub bound: usize,
}

pub struct BuilderV {
    pub nodes: Seq<Node>,
    pub sets: Seq<Seq<bool>>,
    pub strings: Seq<Seq<u8>>,
    pub names: Seq<NameSlot>,
    pub groups: usize,
    pub bound: usize,
}

impl View for Builder {
    type V = BuilderV;

    open spec fn view(&self) -> BuilderV {
        BuilderV {
            nodes: self.nodes@,
            sets: tables(self.sets@),
            strings: texts(self.strings@),
            names: self.names@,
            groups: self.groups,
            bound: self.bound,
        }
    }
}

/// The offset in the pattern at which a node stands, for the nodes that
/// keep it.
pub open spec fn node_at(n: Node) -> usize {
    match n {
        Node::Look { child, behind, negate, width, at } => at,
        Node::Backref { group, caseless, at } => at,
        Node::NamedRef { name, caseless, at } => at,
        _ => 0,
    }
}

/// Whether node `i` of a table under construction refers only to what
/// exists. A back reference may still name a group that is opened later.
pub open spec fn draft_ok(n: Node, i: int, sets: int, strings: int, groups: int) -> bool {
    match n {
        Node::Class(s) => s < sets,
        Node::Concat(a, b) => a < i && b < i,
        Node::Alt(a, b) => a < i && b < i,
        Node::Repeat { child, min, max, lazy } => child < i && min <= max,
        Node::Group { child, index } => child < i && 1 <= index <= groups,
        Node::Atomic(child) => child < i,
        Node::Look { child, behind, negate, width, at } => child < i,
        Node::NamedRef { name, caseless, at } => name < strings,
        Node::Mark(m) => m < strings,
        _ => true,
    }
}

impl BuilderV {
    /// The invariant of the tables under construction.
    #[verifier::opaque]
    pub open spec fn wf(self) -> bool {
        &&& self.groups <= MAX_GROUPS
        &&& forall|i: int|
            0 <= i < self.nodes.len() ==> draft_ok(
                #[trigger] self.nodes[i],
                i,
                self.sets.len() as int,
                self.strings.len() as int,
                self.groups as int,
            ) && node_at(self.nodes[i]) <= self.bound
        &&& forall|j: int| 0 <= j < self.sets.len() ==> (#[trigger] self.sets[j]).len() == SET_SIZE
        &&& forall|j: int|
            0 <= j < self.names.len() ==> {
                let slot = #[trigger] self.names[j];
                slot.string < self.strings.len() && 1 <= slot.index <= self.groups && word_bytes(
                    self.strings[slot.string as int],
                ) && (j > 0 ==> self.names[j - 1].index < slot.index)
            }
    }

    /// The numbers of the named groups, as far as they are known.
    pub open spec fn names_below(self) -> bool {
        forall|j: int| 0 <= j < self.names.len() ==> (#[trigger] self.names[j]).index <= self.groups
    }

    pub open spec fn with_node(self, n: Node) -> BuilderV {
        BuilderV { nodes: self.nodes.push(n), ..self }
    }

    pub open spec fn with_set(self, t: Seq<bool>) -> BuilderV {
        BuilderV { sets: self.sets.push(t), ..self }
    }

    pub open spec fn with_string(self, s: Seq<u8>) -> BuilderV {
        BuilderV { strings: self.strings.push(s), ..self }
    }

    pub open spec fn with_name(self, slot: NameSlot) -> BuilderV {
        BuilderV { names: self.names.push(slot), ..self }
    }

    pub open spec fn with_groups(self, groups: usize) -> BuilderV {
        BuilderV { groups, ..self }
    }
}

/// The tables before anything is read of a pattern of `bound` bytes.
pub open spec fn no_tables(bound: usize) -> BuilderV {
    BuilderV {
        nodes: Seq::empty(),
        sets: Seq::empty(),
        strings: Seq::empty(),
        names: Seq::empty(),
        groups: 0,
        bound,
    }
}

/// No named group has a number beyond the number of groups opened so far.
pub proof fn names_are_below(b: BuilderV)
    requires
        b.wf(),
    ensures
        b.names_below(),
{
    reveal(BuilderV::wf);
}

/// An empty builder for a pattern of `bound` bytes.
pub fn new_builder(bound: usize) -> (b: Builder)
    ensures
        b@ == no_tables(bound),
        b@.wf(),
{
    reveal(BuilderV::wf);
    let b = Builder {
        nodes: Vec::new(),
        sets: Vec::new(),
        strings: Vec::new(),
        names: Vec::new(),
        groups: 0,
        bound,
    };
    assert(b@.nodes =~= Seq::<Node>::empty());
    assert(b@.sets =~= Seq::<Seq<bool>>::empty());
    assert(b@.strings =~= Seq::<Seq<u8>>::empty());
    assert(b@.names =~= Seq::<NameSlot>::empty());
    b
}

/// Appends a node and gives its number.
pub fn add_node(b: Builder, n: Node) -> (r: (Builder, usize))
    requires
        b@.wf(),
        draft_ok(
            n,
            b@.nodes.len() as int,
            b@.sets.len() as int,
            b@.strings.len() as int,
            b@.groups as int,
        ),
        node_at(n) <= b@.bound,
    ensures
        r.0@ == b@.with_node(n),
        r.1 == b@.nodes.len(),
        r.0@.wf(),
{
    let ghost before = b@;
    let mut b = b;
    let i = b.nodes.len();
    b.nodes.push(n);
    proof {
        reveal(BuilderV::wf);
        let after = b@;
        assert(after.nodes =~= before.nodes.push(n));
        assert forall|j: int| 0 <= j < after.nodes.len() implies draft_ok(
            #[trigger] after.nodes[j],
            j,
            after.sets.len() as int,
            after.strings.len() as int,
            after.groups as int,
        ) && node_at(after.nodes[j]) <= after.bound by {
            if j < before.nodes.len() {
                assert(after.nodes[j] == before.nodes[j]);
            }
        }
    }
    (b, i)
}

/// Appends a byte set and gives its number.
pub fn add_set(b: Builder, t: Vec<bool>) -> (r: (Builder, usize))
    requires
        b@.wf(),
        t@.len() == SET_SIZE,
    ensures
        r.0@ == b@.with_set(t@),
        r.1 == b@.sets.len(),
        r.0@.wf(),
{
    let ghost before = tables(b.sets@);
    let ghost old_b = b@;
    let mut b = b;
    let i = b.sets.len();
    b.sets.push(t);
    assert(tables(b.sets@) =~= before.push(t@));
    proof {
        reveal(BuilderV::wf);
        let after = b@;
        assert forall|j: int| 0 <= j < after.nodes.len() implies draft_ok(
            #[trigger] after.nodes[j],
            j,
            after.sets.len() as int,
            after.strings.len() as int,
            after.groups as int,
        ) && node_at(after.nodes[j]) <= after.bound by {
            assert(after.nodes[j] == old_b.nodes[j]);
        }
    }
    (b, i)
}

/// Appends a string and gives its number.
pub fn add_string(b: Builder, s: Vec<u8>) -> (r: (Builder, usize))
    requires
        b@.wf(),
    ensures
        r.0@ == b@.with_string(s@),
        r.1 == b@.strings.len(),
        r.0@.wf(),
{
    let ghost before = texts(b.strings@);
    let ghost old_b = b@;
    let mut b = b;
    let i = b.strings.len();
    b.strings.push(s);
    assert(texts(b.strings@) =~= before.push(s@));
    proof {
        reveal(BuilderV::wf);
        let after = b@;
        assert forall|j: int| 0 <= j < after.nodes.len() implies draft_ok(
            #[trigger] after.nodes[j],
            j,
            after.sets.len() as int,
            after.strings.len() as int,
            after.groups as int,
        ) && node_at(after.nodes[j]) <= after.bound by {
            assert(after.nodes[j] == old_b.nodes[j]);
        }
        assert forall|j: int| 0 <= j < after.names.len() implies {
            let slot = #[trigger] after.names[j];
            slot.string < after.strings.len() && 1 <= slot.index <= after.groups && word_bytes(
                    after.strings[slot.string as int],
                ) && (j > 0 ==> after.names[j - 1].index < slot.index)
        } by {
            let slot = old_b.names[j];
            assert(after.names[j] == slot);
            if j > 0 {
                assert(after.names[j - 1] == old_b.names[j - 1]);
            }
            assert(slot.string < old_b.strings.len());
            assert(word_bytes(old_b.strings[slot.string as int]));
            assert(after.strings[slot.string as int] == old_b.strings[slot.string as int]);
        }
        assert(after.sets == old_b.sets);
    }
    (b, i)
}

/// The node for one literal byte under `mode`.
pub open spec fn spec_literal(c: u8, mode: Mode) -> Node {
    if mode.caseless && spec_is_alpha(c) {
        Node::ByteNoCase(spec_to_lower(c))
    } else {
        Node::Byte(c)
    }
}

pub fn literal(c: u8, mode: Mode) -> (n: Node)
    ensures
        n == spec_literal(c, mode),
{
    if mode.caseless && is_alpha(c) {
        Node::ByteNoCase(to_lower(c))
    } else {
        Node::Byte(c)
    }
}

} // verus!
