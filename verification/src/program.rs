//! The compiled form of a pattern.
//!
//! A program is a table of nodes. A node names its children by their
//! positions in the table, and every child stands before its parent, so the
//! table is a tree written bottom-up with the root last in reach.

use crate::bytes::Newline;
use vstd::prelude::*;

verus! {

/// The offset that stands for "this group took no part in the match".
pub const UNSET: usize = usize::MAX;

/// The upper bound of a repetition without one.
pub const UNBOUNDED: usize = usize::MAX;

/// The largest number of capture groups in one pattern.
pub const MAX_GROUPS: usize = 65535;

/// The largest count that a counted repetition may ask for.
pub const MAX_REPEAT: usize = 65535;

/// The number of entries of a byte set's table.
pub const SET_SIZE: usize = 256;

/// One construct of a pattern.
#[derive(Clone, Copy, Debug)]
pub enum Node {
    /// Matches the empty string.
    Empty,
    /// One byte, exactly.
    Byte(u8),
    /// One byte, compared after folding letters to lower case. The field is
    /// held in lower case.
    ByteNoCase(u8),
    /// One byte out of the set with this number.
    Class(usize),
    /// One byte that starts no newline sequence.
    AnyExceptNewline,
    /// One byte, whatever it is.
    AnyByte,
    /// `^`: the start of the subject, or with `multiline` of any line.
    LineStart { multiline: bool },
    /// `$`: the end of the subject or of its last line, or with `multiline`
    /// of any line. With `end_only` the very end alone.
    LineEnd { multiline: bool, end_only: bool },
    /// `\A`: the start of the subject.
    SubjectStart,
    /// `\z`: the end of the subject.
    SubjectEnd,
    /// `\Z`: the end of the subject, or just before a newline that ends it.
    SubjectEndOptNewline,
    /// `\G`: the offset at which the search began.
    SearchStart,
    /// `\b`, or `\B` with `negate`.
    WordBoundary { negate: bool },
    /// The first child, then the second.
    Concat(usize, usize),
    /// The first child, or else the second.
    Alt(usize, usize),
    /// The child between `min` and `max` times; as few as possible if `lazy`.
    Repeat { child: usize, min: usize, max: usize, lazy: bool },
    /// A capture group with its number.
    Group { child: usize, index: usize },
    /// The child, matched once and never re-entered on backtracking.
    Atomic(usize),
    /// An assertion that the child matches (or with `negate` does not) from
    /// here on, or with `behind` over the `width` bytes that end here. `at`
    /// is the offset of the construct in the pattern.
    Look { child: usize, behind: bool, negate: bool, width: usize, at: usize },
    /// The text that a group captured, again.
    Backref { group: usize, caseless: bool, at: usize },
    /// A back reference by name, before the name is resolved: a program
    /// holds none.
    NamedRef { name: usize, caseless: bool, at: usize },
    /// Records the mark name with this number.
    Mark(usize),
}

/// A named capture group: the number of its name in the string table, and
/// the number of the group.
#[derive(Clone, Copy, Debug)]
pub struct NameSlot {
    pub string: usize,
    pub index: usize,
}

/// A compiled pattern.
#[derive(Debug)]
pub struct Program {
    pub nodes: Vec<Node>,
    pub root: usize,
    pub sets: Vec<Vec<bool>>,
    /// The names of marks and of groups.
    pub strings: Vec<Vec<u8>>,
    /// The number of capture groups, without group 0.
    pub group_count: usize,
    /// The named groups in the order in which the pattern opens them.
    pub names: Vec<NameSlot>,
    pub newline: Newline,
    /// A match may start at the start offset only.
    pub anchored: bool,
    /// A match must start before or at the first newline of the subject.
    pub first_line: bool,
}

/// Whether node `i` of a table refers only to what exists: children that
/// stand before it, sets and strings within their tables, groups within
/// `1..=groups`.
pub open spec fn node_ok(n: Node, i: int, sets: int, strings: int, groups: int) -> bool {
    match n {
        Node::Class(s) => s < sets,
        Node::Concat(a, b) => a < i && b < i,
        Node::Alt(a, b) => a < i && b < i,
        Node::Repeat { child, min, max, lazy } => child < i && min <= max,
        Node::Group { child, index } => child < i && 1 <= index <= groups,
        Node::Atomic(child) => child < i,
        Node::Look { child, behind, negate, width, at } => child < i,
        Node::Backref { group, caseless, at } => 1 <= group <= groups,
        Node::NamedRef { name, caseless, at } => false,
        Node::Mark(m) => m < strings,
        _ => true,
    }
}

/// The byte sets of a table of sets.
pub open spec fn tables(v: Seq<Vec<bool>>) -> Seq<Seq<bool>> {
    v.map_values(|t: Vec<bool>| t@)
}

/// The strings of a table of strings.
pub open spec fn texts(v: Seq<Vec<u8>>) -> Seq<Seq<u8>> {
    v.map_values(|t: Vec<u8>| t@)
}

/// A program as plain values.
pub struct ProgramV {
    pub nodes: Seq<Node>,
    pub root: usize,
    pub sets: Seq<Seq<bool>>,
    pub strings: Seq<Seq<u8>>,
    pub group_count: usize,
    pub names: Seq<NameSlot>,
    pub newline: Newline,
    pub anchored: bool,
    pub first_line: bool,
}

impl View for Program {
    type V = ProgramV;

    open spec fn view(&self) -> ProgramV {
        ProgramV {
            nodes: self.nodes@,
            root: self.root,
            sets: tables(self.sets@),
            strings: texts(self.strings@),
            group_count: self.group_count,
            names: self.names@,
            newline: self.newline,
            anchored: self.anchored,
            first_line: self.first_line,
        }
    }
}

/// Whether every byte is a letter, a digit or the underscore.
pub open spec fn word_bytes(s: Seq<u8>) -> bool {
    forall|i: int| 0 <= i < s.len() ==> crate::bytes::spec_is_word(#[trigger] s[i])
}

impl ProgramV {
    /// The invariant of a program.
    pub open spec fn wf(self) -> bool {
        &&& self.root < self.nodes.len()
        &&& self.group_count <= MAX_GROUPS
        &&& forall|i: int|
            0 <= i < self.nodes.len() ==> node_ok(
                #[trigger] self.nodes[i],
                i,
                self.sets.len() as int,
                self.strings.len() as int,
                self.group_count as int,
            )
        &&& forall|j: int| 0 <= j < self.sets.len() ==> (#[trigger] self.sets[j]).len() == SET_SIZE
        &&& forall|j: int|
            0 <= j < self.names.len() ==> {
                let slot = #[trigger] self.names[j];
                slot.string < self.strings.len() && 1 <= slot.index <= self.group_count && word_bytes(
                    self.strings[slot.string as int],
                ) && (j > 0 ==> self.names[j - 1].index < slot.index)
            }
    }

    /// The number of offsets that a match of this program records: a start
    /// and an end for group 0 and for every capture group.
    pub open spec fn slot_count(self) -> nat {
        (2 * (self.group_count + 1)) as nat
    }
}

impl Program {
    /// The invariant of a program.
    pub open spec fn wf(&self) -> bool {
        self@.wf()
    }
}

} // verus!
