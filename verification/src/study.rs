//! Studying a program: which bytes can a match begin with?
//!
//! The answer is a table of 256 flags. A search that has one may pass over
//! every position whose byte the table excludes, because no match starts
//! there: `start_table_sound` proves that the matcher itself would fail at
//! such a position, without noting that the subject ran out.

use crate::bytes::{same_folded, spec_same_folded};
use crate::matcher::{
    run_spec, Cont, EnvV, Meter, Probe, SlotsV, probe_spec, resume_spec, iterate_spec,
};
use crate::program::{Node, Program, ProgramV, SET_SIZE};
use vstd::prelude::*;

verus! {

/// How many nodes deep the study looks before it gives up.
pub const STUDY_DEPTH: usize = 2000;

/// The table that admits `b` alone.
pub open spec fn only(b: u8) -> Seq<bool> {
    Seq::new(SET_SIZE as nat, |i: int| i == b)
}

/// The table that admits `b` in either case.
pub open spec fn either_case(b: u8) -> Seq<bool> {
    Seq::new(SET_SIZE as nat, |i: int| spec_same_folded(i as u8, b))
}

/// The table that admits what `x` or `y` admits.
pub open spec fn merged(x: Seq<bool>, y: Seq<bool>) -> Seq<bool> {
    Seq::new(SET_SIZE as nat, |i: int| x[i] || y[i])
}

/// Whether a node consumes nothing and decides by the position alone.
pub open spec fn spec_transparent(n: Node) -> bool {
    match n {
        Node::Empty => true,
        Node::LineStart { multiline } => true,
        Node::LineEnd { multiline, end_only } => true,
        Node::SubjectStart => true,
        Node::SubjectEnd => true,
        Node::SubjectEndOptNewline => true,
        Node::SearchStart => true,
        Node::WordBoundary { negate } => true,
        Node::Mark(i) => true,
        _ => false,
    }
}

#[verifier::when_used_as_spec(spec_transparent)]
pub fn transparent(n: Node) -> (r: bool)
    ensures
        r == spec_transparent(n),
{
    match n {
        Node::Empty => true,
        Node::LineStart { multiline } => true,
        Node::LineEnd { multiline, end_only } => true,
        Node::SubjectStart => true,
        Node::SubjectEnd => true,
        Node::SubjectEndOptNewline => true,
        Node::SearchStart => true,
        Node::WordBoundary { negate } => true,
        Node::Mark(i) => true,
        _ => false,
    }
}

/// The bytes with which a match of node `node` can begin, where the node
/// always consumes a byte first and a look of `fuel` nodes deep finds them.
pub open spec fn start_table(prog: ProgramV, node: usize, fuel: nat) -> Option<Seq<bool>>
    decreases fuel,
{
    if fuel == 0 {
        None
    } else {
        let f = (fuel - 1) as nat;
        match prog.nodes[node as int] {
            Node::Byte(b) => Some(only(b)),
            Node::ByteNoCase(b) => Some(either_case(b)),
            Node::Class(i) => Some(prog.sets[i as int]),
            Node::Concat(a, b) => if spec_transparent(prog.nodes[a as int]) {
                start_table(prog, b, f)
            } else {
                start_table(prog, a, f)
            },
            Node::Alt(a, b) => match (start_table(prog, a, f), start_table(prog, b, f)) {
                (Some(x), Some(y)) => Some(merged(x, y)),
                _ => None,
            },
            Node::Group { child, index } => start_table(prog, child, f),
            Node::Atomic(child) => start_table(prog, child, f),
            Node::Repeat { child, min, max, lazy } => if min >= 1 {
                start_table(prog, child, f)
            } else {
                None
            },
            _ => None,
        }
    }
}

/// What studying a program yields.
pub open spec fn study_spec(prog: ProgramV) -> Option<Seq<bool>> {
    start_table(prog, prog.root, STUDY_DEPTH as nat)
}

/// Every start table has 256 entries.
pub proof fn start_table_len(prog: ProgramV, node: usize, fuel: nat)
    requires
        prog.wf(),
        node < prog.nodes.len(),
    ensures
        start_table(prog, node, fuel) matches Some(t) ==> t.len() == SET_SIZE,
    decreases fuel,
{
    if fuel > 0 {
        let f = (fuel - 1) as nat;
        match prog.nodes[node as int] {
            Node::Concat(a, b) => {
                start_table_len(prog, a, f);
                start_table_len(prog, b, f);
            },
            Node::Group { child, index } => start_table_len(prog, child, f),
            Node::Atomic(child) => start_table_len(prog, child, f),
            Node::Repeat { child, min, max, lazy } => start_table_len(prog, child, f),
            _ => {},
        }
    }
}

/// Whether the table excludes the byte at `pos`, or there is none.
pub open spec fn excluded(table: Seq<bool>, s: Seq<u8>, pos: usize) -> bool {
    pos >= s.len() || !table[s[pos as int] as int]
}

/// Whether a step failed or ran out of budget, and left the note of where
/// the subject ran out as it was.
pub open spec fn fails_quietly(r: crate::matcher::StepV, meter: Meter) -> bool {
    (r.out is Failed || r.out is LimitHit) && r.meter.hit_end == meter.hit_end
}

/// Where the start table of a node excludes the byte at the position at
/// which an attempt begins, the node does not match there, whatever follows
/// it and whatever the budgets are.
pub proof fn start_table_sound(
    env: EnvV,
    node: usize,
    fuel: nat,
    k: Cont,
    slots: SlotsV,
    depth: nat,
    meter: Meter,
)
    requires
        env.prog.wf(),
        node < env.prog.nodes.len(),
        start_table(env.prog, node, fuel) is Some,
        excluded(start_table(env.prog, node, fuel)->0, env.subject, env.ctx.attempt),
    ensures
        fails_quietly(run_spec(env, node, k, env.ctx.attempt, slots, depth, meter), meter),
    decreases fuel,
{
    let pos = env.ctx.attempt;
    let prog = env.prog;
    let f = (fuel - 1) as nat;
    let whole = run_spec(env, node, k, pos, slots, depth, meter);
    if depth == 0 || meter.steps == 0 {
    } else {
        let d = (depth - 1) as nat;
        let m = meter.tick();
        let n = prog.nodes[node as int];
        match n {
            Node::Concat(a, b) => {
                let then = Cont::Then { node: b, next: &k };
                assert(whole == run_spec(env, a, then, pos, slots, d, m));
                if spec_transparent(prog.nodes[a as int]) {
                    passes_through(env, a, then, slots, d, m);
                    if d >= 2 && m.steps > 0 {
                        let slots2 = after_transparent(prog.nodes[a as int], slots);
                        start_table_sound(env, b, f, k, slots2, (d - 2) as nat, m.tick());
                    }
                } else {
                    start_table_sound(env, a, f, then, slots, d, m);
                }
            },
            Node::Alt(a, b) => {
                start_table_len(prog, a, f);
                start_table_len(prog, b, f);
                start_table_sound(env, a, f, k, slots, d, m);
                let first = run_spec(env, a, k, pos, slots, d, m);
                start_table_sound(env, b, f, k, slots, d, first.meter);
            },
            Node::Group { child, index } => {
                start_table_sound(
                    env,
                    child,
                    f,
                    Cont::Close { index, start: pos, next: &k },
                    slots,
                    d,
                    m,
                );
            },
            Node::Atomic(child) => {
                start_table_sound(env, child, f, Cont::Stop, slots, d, m);
            },
            Node::Repeat { child, min, max, lazy } => {
                let through = iterate_spec(env, node, 0, k, pos, slots, d, m);
                assert(whole == through);
                if d > 0 {
                    let again = Cont::Loop { node, count: 1, entry: pos, next: &k };
                    start_table_sound(env, child, f, again, slots, (d - 1) as nat, m);
                    assert(through == run_spec(env, child, again, pos, slots, (d - 1) as nat, m));
                }
            },
            Node::Byte(b) => {
                assert(probe_spec(env, n, pos, slots.caps) !is Advance);
            },
            Node::ByteNoCase(b) => {
                assert(probe_spec(env, n, pos, slots.caps) !is Advance);
            },
            Node::Class(i) => {
                assert(probe_spec(env, n, pos, slots.caps) !is Advance);
            },
            _ => {},
        }
    }
}

/// The slots after a transparent node has been passed.
pub open spec fn after_transparent(n: Node, slots: SlotsV) -> SlotsV {
    match n {
        Node::Mark(i) => SlotsV { caps: slots.caps, mark: Some(i) },
        _ => slots,
    }
}

/// A transparent node at the start of an attempt either fails quietly or
/// hands over to its continuation at the same position.
pub proof fn passes_through(env: EnvV, a: usize, then: Cont, slots: SlotsV, depth: nat, meter: Meter)
    requires
        a < env.prog.nodes.len(),
        spec_transparent(env.prog.nodes[a as int]),
        then is Then,
    ensures
        ({
            let r = run_spec(env, a, then, env.ctx.attempt, slots, depth, meter);
            let inner = run_spec(
                env,
                then->Then_node,
                *then->Then_next,
                env.ctx.attempt,
                after_transparent(env.prog.nodes[a as int], slots),
                (depth - 2) as nat,
                meter.tick(),
            );
            fails_quietly(r, meter) || (depth >= 2 && meter.steps > 0 && r == inner)
        }),
{
    let pos = env.ctx.attempt;
    let r = run_spec(env, a, then, pos, slots, depth, meter);
    if depth == 0 || meter.steps == 0 {
    } else {
        let d = (depth - 1) as nat;
        let m = meter.tick();
        let n = env.prog.nodes[a as int];
        let slots2 = after_transparent(n, slots);
        let handed = resume_spec(env, then, pos, slots2, d, m);
        match n {
            Node::Mark(i) => {
                assert(r == handed);
            },
            _ => {
                let p = probe_spec(env, n, pos, slots.caps);
                assert(p is Reject || p == Probe::Advance(pos));
                if p is Reject {
                    assert(r == crate::matcher::failed(m));
                } else {
                    assert(r == handed);
                }
            },
        }
        if d > 0 {
            assert(handed == run_spec(
                env,
                then->Then_node,
                *then->Then_next,
                pos,
                slots2,
                (d - 1) as nat,
                m,
            ));
        }
    }
}

/// The table that admits `b` alone.
pub fn table_only(b: u8) -> (t: Vec<bool>)
    ensures
        t@ == only(b),
{
    let mut t: Vec<bool> = Vec::with_capacity(SET_SIZE);
    let mut i: usize = 0;
    while i < SET_SIZE
        invariant
            i <= SET_SIZE,
            t@.len() == i,
            forall|j: int| 0 <= j < i ==> t@[j] == (j == b),
        decreases SET_SIZE - i,
    {
        t.push(i == b as usize);
        i += 1;
    }
    assert(t@ =~= only(b));
    t
}

/// The table that admits `b` in either case.
pub fn table_either_case(b: u8) -> (t: Vec<bool>)
    ensures
        t@ == either_case(b),
{
    let mut t: Vec<bool> = Vec::with_capacity(SET_SIZE);
    let mut i: usize = 0;
    while i < SET_SIZE
        invariant
            i <= SET_SIZE,
            t@.len() == i,
            forall|j: int| 0 <= j < i ==> t@[j] == spec_same_folded(j as u8, b),
        decreases SET_SIZE - i,
    {
        t.push(same_folded(i as u8, b));
        i += 1;
    }
    assert(t@ =~= either_case(b));
    t
}

/// A copy of a table.
pub fn table_copy(src: &Vec<bool>) -> (t: Vec<bool>)
    ensures
        t@ == src@,
{
    let mut t: Vec<bool> = Vec::with_capacity(src.len());
    let mut i: usize = 0;
    while i < src.len()
        invariant
            i <= src.len(),
            t@.len() == i,
            forall|j: int| 0 <= j < i ==> t@[j] == src@[j],
        decreases src.len() - i,
    {
        t.push(src[i]);
        i += 1;
    }
    assert(t@ =~= src@);
    t
}

/// The table that admits what `x` or `y` admits.
pub fn table_merged(x: &Vec<bool>, y: &Vec<bool>) -> (t: Vec<bool>)
    requires
        x@.len() == SET_SIZE,
        y@.len() == SET_SIZE,
    ensures
        t@ == merged(x@, y@),
{
    let mut t: Vec<bool> = Vec::with_capacity(SET_SIZE);
    let mut i: usize = 0;
    while i < SET_SIZE
        invariant
            i <= SET_SIZE,
            x@.len() == SET_SIZE,
            y@.len() == SET_SIZE,
            t@.len() == i,
            forall|j: int| 0 <= j < i ==> t@[j] == (x@[j] || y@[j]),
        decreases SET_SIZE - i,
    {
        t.push(x[i] || y[i]);
        i += 1;
    }
    assert(t@ =~= merged(x@, y@));
    t
}

/// Whether `r` is the table `t`, or both are missing.
pub open spec fn same_table(r: Option<Vec<bool>>, t: Option<Seq<bool>>) -> bool {
    match r {
        Some(v) => t == Some(v@),
        None => t is None,
    }
}

/// Computes the start table of node `node`.
pub fn start_table_of(prog: &Program, node: usize, fuel: usize) -> (r: Option<Vec<bool>>)
    requires
        prog.wf(),
        node < prog.nodes.len(),
    ensures
        same_table(r, start_table(prog@, node, fuel as nat)),
    decreases fuel,
{
    if fuel == 0 {
        return None;
    }
    let f = fuel - 1;
    match prog.nodes[node] {
        Node::Byte(b) => Some(table_only(b)),
        Node::ByteNoCase(b) => Some(table_either_case(b)),
        Node::Class(i) => Some(table_copy(&prog.sets[i])),
        Node::Concat(a, b) => if transparent(prog.nodes[a]) {
            start_table_of(prog, b, f)
        } else {
            start_table_of(prog, a, f)
        },
        Node::Alt(a, b) => {
            let left = start_table_of(prog, a, f);
            match left {
                None => None,
                Some(x) => {
                    let right = start_table_of(prog, b, f);
                    match right {
                        None => None,
                        Some(y) => {
                            proof {
                                start_table_len(prog@, a, f as nat);
                                start_table_len(prog@, b, f as nat);
                            }
                            Some(table_merged(&x, &y))
                        },
                    }
                },
            }
        },
        Node::Group { child, index } => start_table_of(prog, child, f),
        Node::Atomic(child) => start_table_of(prog, child, f),
        Node::Repeat { child, min, max, lazy } => if min >= 1 {
            start_table_of(prog, child, f)
        } else {
            None
        },
        _ => None,
    }
}

/// Studies a program: the table of the bytes that a match can begin with,
/// if the pattern always begins by consuming a byte.
pub fn pcre_study(prog: &Program) -> (r: Option<Vec<bool>>)
    requires
        prog.wf(),
    ensures
        same_table(r, study_spec(prog@)),
        r matches Some(t) ==> t@.len() == SET_SIZE,
{
    proof {
        start_table_len(prog@, prog.root, STUDY_DEPTH as nat);
    }
    start_table_of(prog, prog.root, STUDY_DEPTH)
}

} // verus!
