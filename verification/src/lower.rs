//! From the tables that the parser leaves to a program: back references
//! are checked and resolved, and every lookbehind learns its width.

use crate::bytes::Newline;
use crate::program::{node_ok, tables, NameSlot, Node, Program, ProgramV, MAX_REPEAT};
use crate::syntax::{Builder, BuilderV, ErrorKind, Fault};
use vstd::prelude::*;

verus! {

/// The largest width of a lookbehind.
pub const MAX_WIDTH: usize = 65535;

/// `v` as a width, if it is within `MAX_WIDTH`.
pub open spec fn within(v: int) -> Option<usize> {
    if 0 <= v <= MAX_WIDTH {
        Some(v as usize)
    } else {
        None
    }
}

/// The number of bytes that every match of node `i` consumes, if there is
/// one such number within `MAX_WIDTH`.
pub open spec fn spec_width(nodes: Seq<Node>, i: int) -> Option<usize>
    decreases i,
{
    if i < 0 || i >= nodes.len() {
        None
    } else {
        match nodes[i] {
            Node::Byte(b) => Some(1),
            Node::ByteNoCase(b) => Some(1),
            Node::Class(s) => Some(1),
            Node::AnyExceptNewline => Some(1),
            Node::AnyByte => Some(1),
            Node::Concat(a, b) => if a < i && b < i {
                match (spec_width(nodes, a as int), spec_width(nodes, b as int)) {
                    (Some(x), Some(y)) => within(x + y),
                    _ => None,
                }
            } else {
                None
            },
            Node::Alt(a, b) => if a < i && b < i {
                match (spec_width(nodes, a as int), spec_width(nodes, b as int)) {
                    (Some(x), Some(y)) => if x == y {
                        Some(x)
                    } else {
                        None
                    },
                    _ => None,
                }
            } else {
                None
            },
            Node::Repeat { child, min, max, lazy } => if child < i && min == max && min
                <= MAX_REPEAT {
                match spec_width(nodes, child as int) {
                    Some(x) => within(x * min),
                    None => None,
                }
            } else {
                None
            },
            Node::Group { child, index } => if child < i {
                spec_width(nodes, child as int)
            } else {
                None
            },
            Node::Atomic(child) => if child < i {
                spec_width(nodes, child as int)
            } else {
                None
            },
            Node::Backref { group, caseless, at } => None,
            Node::NamedRef { name, caseless, at } => None,
            _ => Some(0),
        }
    }
}

/// Every width is within `MAX_WIDTH`.
pub proof fn width_bound(nodes: Seq<Node>, i: int)
    ensures
        spec_width(nodes, i) matches Some(w) ==> w <= MAX_WIDTH,
    decreases i,
{
    if 0 <= i < nodes.len() {
        match nodes[i] {
            Node::Alt(a, b) => if a < i && b < i {
                width_bound(nodes, a as int);
            },
            Node::Group { child, index } => if child < i {
                width_bound(nodes, child as int);
            },
            Node::Atomic(child) => if child < i {
                width_bound(nodes, child as int);
            },
            _ => {},
        }
    }
}

/// The width of node `i`, whose children have the widths in `known`.
pub fn width_of(nodes: &Vec<Node>, i: usize, known: &Vec<Option<usize>>) -> (r: Option<usize>)
    requires
        i < nodes@.len(),
        known@.len() == i,
        forall|j: int| 0 <= j < i ==> known@[j] == spec_width(nodes@, j),
    ensures
        r == spec_width(nodes@, i as int),
{
    proof {
        assert forall|j: int| 0 <= j < i implies (#[trigger] known@[j] matches Some(w) ==> w
            <= MAX_WIDTH) by {
            width_bound(nodes@, j);
        }
    }
    match nodes[i] {
        Node::Byte(b) => Some(1),
        Node::ByteNoCase(b) => Some(1),
        Node::Class(s) => Some(1),
        Node::AnyExceptNewline => Some(1),
        Node::AnyByte => Some(1),
        Node::Concat(a, b) => if a < i && b < i {
            match (known[a], known[b]) {
                (Some(x), Some(y)) => if x + y <= MAX_WIDTH {
                    Some(x + y)
                } else {
                    None
                },
                _ => None,
            }
        } else {
            None
        },
        Node::Alt(a, b) => if a < i && b < i {
            match (known[a], known[b]) {
                (Some(x), Some(y)) => if x == y {
                    Some(x)
                } else {
                    None
                },
                _ => None,
            }
        } else {
            None
        },
        Node::Repeat { child, min, max, lazy } => if child < i && min == max && min <= MAX_REPEAT {
            match known[child] {
                Some(x) => {
                    assert(x * min <= 65535 * 65535) by (nonlinear_arith)
                        requires
                            x <= 65535,
                            min <= 65535,
                    ;
                    let product = (x as u64) * (min as u64);
                    if product <= MAX_WIDTH as u64 {
                        Some(product as usize)
                    } else {
                        None
                    }
                },
                None => None,
            }
        } else {
            None
        },
        Node::Group { child, index } => if child < i {
            known[child]
        } else {
            None
        },
        Node::Atomic(child) => if child < i {
            known[child]
        } else {
            None
        },
        Node::Backref { group, caseless, at } => None,
        Node::NamedRef { name, caseless, at } => None,
        _ => Some(0),
    }
}

/// The number of the first group named `name` among the names from
/// `from` on.
pub open spec fn spec_lookup(names: Seq<NameSlot>, strings: Seq<Seq<u8>>, name: Seq<u8>, from: int) -> Option<
    usize,
>
    decreases names.len() - from,
{
    if from < 0 || from >= names.len() {
        None
    } else if strings[names[from].string as int] == name {
        Some(names[from].index)
    } else {
        spec_lookup(names, strings, name, from + 1)
    }
}

/// Whether two strings hold the same bytes.
pub fn same_string(a: &Vec<u8>, b: &Vec<u8>) -> (r: bool)
    ensures
        r == (a@ == b@),
{
    if a.len() != b.len() {
        return false;
    }
    let mut i: usize = 0;
    while i < a.len()
        invariant
            a.len() == b.len(),
            i <= a.len(),
            forall|j: int| 0 <= j < i ==> a@[j] == b@[j],
        decreases a.len() - i,
    {
        if a[i] != b[i] {
            return false;
        }
        i += 1;
    }
    assert(a@ =~= b@);
    true
}

/// Finds the number of the first group with the name of string `name`.
pub fn lookup(b: &Builder, name: usize) -> (r: Option<usize>)
    requires
        b@.wf(),
        name < b@.strings.len(),
    ensures
        r == spec_lookup(b@.names, b@.strings, b@.strings[name as int], 0),
        r matches Some(g) ==> 1 <= g <= b@.groups,
{
    proof {
        reveal(BuilderV::wf);
    }
    let mut j: usize = 0;
    while j < b.names.len()
        invariant
            b@.wf(),
            name < b@.strings.len(),
            j <= b.names.len(),
            spec_lookup(b@.names, b@.strings, b@.strings[name as int], 0) == spec_lookup(
                b@.names,
                b@.strings,
                b@.strings[name as int],
                j as int,
            ),
        decreases b.names.len() - j,
    {
        proof {
            reveal(BuilderV::wf);
        }
        let slot = b.names[j];
        assert(b@.names[j as int] == slot);
        if same_string(&b.strings[slot.string], &b.strings[name]) {
            return Some(slot.index);
        }
        j += 1;
    }
    None
}

/// Node `i` of the tables as it stands in the program: a back reference
/// must name a group that exists, a name must be the name of a group, and a
/// lookbehind must have a width.
pub open spec fn lowered(d: BuilderV, i: int) -> Result<Node, Fault> {
    match d.nodes[i] {
        Node::Backref { group, caseless, at } => if 1 <= group <= d.groups {
            Ok(d.nodes[i])
        } else {
            Err(Fault { kind: ErrorKind::UndefinedGroup, at })
        },
        Node::NamedRef { name, caseless, at } => match spec_lookup(
            d.names,
            d.strings,
            d.strings[name as int],
            0,
        ) {
            Some(group) => Ok(Node::Backref { group, caseless, at }),
            None => Err(Fault { kind: ErrorKind::UndefinedGroup, at }),
        },
        Node::Look { child, behind, negate, width, at } => if behind {
            match spec_width(d.nodes, child as int) {
                Some(w) => Ok(Node::Look { child, behind, negate, width: w, at }),
                None => Err(Fault { kind: ErrorKind::LookbehindNotFixed, at }),
            }
        } else {
            Ok(d.nodes[i])
        },
        _ => Ok(d.nodes[i]),
    }
}

/// The first fault among the nodes from `from` on, if there is one.
pub open spec fn first_fault(d: BuilderV, from: int) -> Option<Fault>
    decreases d.nodes.len() - from,
{
    if from < 0 || from >= d.nodes.len() {
        None
    } else {
        match lowered(d, from) {
            Err(f) => Some(f),
            Ok(n) => first_fault(d, from + 1),
        }
    }
}

/// What the whole pattern is matched under, besides the modes of its parts.
#[derive(Clone, Copy, Debug)]
pub struct Frame {
    pub newline: Newline,
    pub anchored: bool,
    pub first_line: bool,
}

/// The program that the tables `d` with the root `root` stand for, or the
/// first fault among their nodes.
pub open spec fn spec_lower(d: BuilderV, root: usize, frame: Frame) -> Result<ProgramV, Fault> {
    match first_fault(d, 0) {
        Some(f) => Err(f),
        None => Ok(
            ProgramV {
                nodes: Seq::new(d.nodes.len(), |i: int| lowered(d, i)->Ok_0),
                root,
                sets: d.sets,
                strings: d.strings,
                group_count: d.groups,
                names: d.names,
                newline: frame.newline,
                anchored: frame.anchored,
                first_line: frame.first_line,
            },
        ),
    }
}

/// Node `i` of the tables as it stands in the program.
pub fn lower_node(b: &Builder, i: usize, widths: &Vec<Option<usize>>) -> (r: Result<Node, Fault>)
    requires
        b@.wf(),
        i < b@.nodes.len(),
        widths@.len() == b@.nodes.len(),
        forall|j: int| 0 <= j < widths@.len() ==> widths@[j] == spec_width(b@.nodes, j),
    ensures
        r == lowered(b@, i as int),
        r matches Err(f) ==> f.at <= b@.bound,
        r matches Ok(n) ==> node_ok(
            n,
            i as int,
            b@.sets.len() as int,
            b@.strings.len() as int,
            b@.groups as int,
        ),
{
    proof {
        reveal(BuilderV::wf);
    }
    let n = b.nodes[i];
    match n {
        Node::Backref { group, caseless, at } => if 1 <= group && group <= b.groups {
            Ok(n)
        } else {
            Err(Fault { kind: ErrorKind::UndefinedGroup, at })
        },
        Node::NamedRef { name, caseless, at } => match lookup(b, name) {
            Some(group) => Ok(Node::Backref { group, caseless, at }),
            None => Err(Fault { kind: ErrorKind::UndefinedGroup, at }),
        },
        Node::Look { child, behind, negate, width, at } => if behind {
            match widths[child] {
                Some(w) => Ok(Node::Look { child, behind, negate, width: w, at }),
                None => Err(Fault { kind: ErrorKind::LookbehindNotFixed, at }),
            }
        } else {
            Ok(n)
        },
        _ => Ok(n),
    }
}

/// The widths of all nodes.
pub fn all_widths(nodes: &Vec<Node>) -> (widths: Vec<Option<usize>>)
    ensures
        widths@.len() == nodes@.len(),
        forall|j: int| 0 <= j < widths@.len() ==> widths@[j] == spec_width(nodes@, j),
{
    let mut widths: Vec<Option<usize>> = Vec::with_capacity(nodes.len());
    let mut i: usize = 0;
    while i < nodes.len()
        invariant
            i <= nodes.len(),
            widths@.len() == i,
            forall|j: int| 0 <= j < i ==> widths@[j] == spec_width(nodes@, j),
        decreases nodes.len() - i,
    {
        let w = width_of(nodes, i, &widths);
        widths.push(w);
        i += 1;
    }
    widths
}

/// Turns the tables that the parser left into a program.
pub fn lower(b: Builder, root: usize, frame: Frame) -> (r: Result<Program, Fault>)
    requires
        b@.wf(),
        root < b@.nodes.len(),
    ensures
        match r {
            Ok(prog) => spec_lower(b@, root, frame) == Ok::<ProgramV, Fault>(prog@) && prog.wf(),
            Err(f) => spec_lower(b@, root, frame) == Err::<ProgramV, Fault>(f) && f.at
                <= b@.bound,
        },
{
    let widths = all_widths(&b.nodes);
    let mut nodes: Vec<Node> = Vec::with_capacity(b.nodes.len());
    let mut i: usize = 0;
    while i < b.nodes.len()
        invariant
            b@.wf(),
            i <= b.nodes.len(),
            nodes@.len() == i,
            widths@.len() == b@.nodes.len(),
            forall|j: int| 0 <= j < widths@.len() ==> widths@[j] == spec_width(b@.nodes, j),
            first_fault(b@, 0) == first_fault(b@, i as int),
            forall|j: int| 0 <= j < i ==> lowered(b@, j) == Ok::<Node, Fault>(nodes@[j]),
            forall|j: int|
                0 <= j < i ==> node_ok(
                    #[trigger] nodes@[j],
                    j,
                    b@.sets.len() as int,
                    b@.strings.len() as int,
                    b@.groups as int,
                ),
        decreases b.nodes.len() - i,
    {
        match lower_node(&b, i, &widths) {
            Err(f) => {
                return Err(f);
            },
            Ok(n) => {
                nodes.push(n);
            },
        }
        i += 1;
    }
    let ghost d = b@;
    let prog = Program {
        nodes,
        root,
        sets: b.sets,
        strings: b.strings,
        group_count: b.groups,
        names: b.names,
        newline: frame.newline,
        anchored: frame.anchored,
        first_line: frame.first_line,
    };
    proof {
        reveal(BuilderV::wf);
        assert(prog@.nodes =~= Seq::new(d.nodes.len(), |i: int| lowered(d, i)->Ok_0));
        assert(prog@.sets == d.sets);
        assert(prog@.strings == d.strings);
    }
    Ok(prog)
}

} // verus!
