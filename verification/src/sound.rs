//! Every match lies within the subject.
//!
//! Whatever the program and the budgets, a match that the matcher finds
//! ends at or after the position at which it began and within the subject,
//! and every group of it is unset or a range within the subject.

use crate::matcher::{
    cont_ok, cont_ok_later, iterate_spec, probe_spec, refuses_empty, resume_spec, run_spec,
    set_group, set_group_ok, slots_ok, Cont, EnvV, Meter, OutcomeV, PartialMode, Probe, SlotsV,
    StepV,
};
use crate::program::{Node, ProgramV};
use crate::search::{
    attempt_spec, blank, ctx_at, found_ok, search_spec, FoundV, Limits, Settings,
};
use vstd::prelude::*;

verus! {

/// Whether `r` ended in a match that lies within the subject from `pos` on
/// with its offsets in order, or in no match at all; and whether its meter
/// notes what `meter` noted, or else the start of this attempt.
pub open spec fn sound(env: EnvV, pos: usize, meter: Meter, r: StepV) -> bool {
    &&& r.out matches OutcomeV::Matched { end, slots } ==> pos <= end <= env.subject.len()
        && slots_ok(slots, env.prog, env.subject.len() as int)
    &&& r.meter.hit_end == meter.hit_end || r.meter.hit_end == Some(env.ctx.attempt)
    &&& env.ctx.partial == PartialMode::Off ==> r.meter.hit_end == meter.hit_end
    &&& env.ctx.partial != PartialMode::Hard ==> !(r.out is Partial)
    &&& r.meter.steps <= meter.steps
}

/// Whether a position, slots and a continuation are in order for a program
/// and a subject.
pub open spec fn ready(env: EnvV, k: Cont, pos: usize, slots: SlotsV) -> bool {
    &&& env.prog.wf()
    &&& pos <= env.subject.len() <= usize::MAX
    &&& cont_ok(env.prog, k, pos)
    &&& slots_ok(slots, env.prog, env.subject.len() as int)
}

/// A node without children that matches goes forward, and stays within the
/// subject.
pub proof fn probe_goes_forward(env: EnvV, node: usize, pos: usize, slots: SlotsV)
    requires
        env.prog.wf(),
        node < env.prog.nodes.len(),
        pos <= env.subject.len() <= usize::MAX,
        slots_ok(slots, env.prog, env.subject.len() as int),
    ensures
        probe_spec(env, env.prog.nodes[node as int], pos, slots.caps) matches Probe::Advance(
            next,
        ) ==> pos <= next <= env.subject.len(),
{
    match env.prog.nodes[node as int] {
        Node::Backref { group, caseless, at } => {
            let g = group as int;
            assert(slots.caps[2 * g] == slots.caps[2 * group]);
        },
        _ => {},
    }
}

/// What `run_spec` finds is sound.
pub proof fn run_sound(
    env: EnvV,
    node: usize,
    k: Cont,
    pos: usize,
    slots: SlotsV,
    depth: nat,
    meter: Meter,
)
    requires
        ready(env, k, pos, slots),
        node < env.prog.nodes.len(),
    ensures
        sound(env, pos, meter, run_spec(env, node, k, pos, slots, depth, meter)),
    decreases depth,
{
    if depth == 0 || meter.steps == 0 {
    } else {
        let d = (depth - 1) as nat;
        let m = meter.tick();
        let n = env.prog.nodes[node as int];
        match n {
            Node::Concat(a, b) => {
                run_sound(env, a, Cont::Then { node: b, next: &k }, pos, slots, d, m);
            },
            Node::Alt(a, b) => {
                run_sound(env, a, k, pos, slots, d, m);
                let first = run_spec(env, a, k, pos, slots, d, m);
                run_sound(env, b, k, pos, slots, d, first.meter);
            },
            Node::Group { child, index } => {
                run_sound(env, child, Cont::Close { index, start: pos, next: &k }, pos, slots, d, m);
            },
            Node::Repeat { child, min, max, lazy } => {
                iterate_sound(env, node, 0, k, pos, slots, d, m);
            },
            Node::Atomic(child) => {
                run_sound(env, child, Cont::Stop, pos, slots, d, m);
                let inner = run_spec(env, child, Cont::Stop, pos, slots, d, m);
                match inner.out {
                    OutcomeV::Matched { end, slots: inner_slots } => {
                        cont_ok_later(env.prog, k, pos, end);
                        resume_sound(env, k, end, inner_slots, d, inner.meter);
                    },
                    _ => {},
                }
            },
            Node::Look { child, behind, negate, width, at } => {
                if behind && pos < width {
                    resume_sound(env, k, pos, slots, d, m);
                } else {
                    let from = if behind {
                        (pos - width) as usize
                    } else {
                        pos
                    };
                    let stop = if behind {
                        Cont::StopAt(pos)
                    } else {
                        Cont::Stop
                    };
                    run_sound(env, child, stop, from, slots, d, m);
                    let inner = run_spec(env, child, stop, from, slots, d, m);
                    match inner.out {
                        OutcomeV::Matched { end, slots: inner_slots } => {
                            resume_sound(env, k, pos, inner_slots, d, inner.meter);
                        },
                        OutcomeV::Failed => {
                            resume_sound(env, k, pos, slots, d, inner.meter);
                        },
                        _ => {},
                    }
                }
            },
            Node::Mark(i) => {
                resume_sound(env, k, pos, SlotsV { caps: slots.caps, mark: Some(i) }, d, m);
            },
            _ => {
                probe_goes_forward(env, node, pos, slots);
                match probe_spec(env, n, pos, slots.caps) {
                    Probe::Advance(next) => {
                        cont_ok_later(env.prog, k, pos, next);
                        resume_sound(env, k, next, slots, d, m);
                    },
                    _ => {},
                }
            },
        }
    }
}

/// What `resume_spec` finds is sound.
pub proof fn resume_sound(env: EnvV, k: Cont, pos: usize, slots: SlotsV, depth: nat, meter: Meter)
    requires
        ready(env, k, pos, slots),
    ensures
        sound(env, pos, meter, resume_spec(env, k, pos, slots, depth, meter)),
    decreases depth,
{
    if depth > 0 {
        let d = (depth - 1) as nat;
        match k {
            Cont::Then { node, next } => {
                run_sound(env, node, *next, pos, slots, d, meter);
            },
            Cont::Close { index, start, next } => {
                set_group_ok(
                    slots.caps,
                    env.prog.group_count as int,
                    env.subject.len() as int,
                    index,
                    start,
                    pos,
                );
                resume_sound(
                    env,
                    *next,
                    pos,
                    SlotsV { caps: set_group(slots.caps, index, start, pos), mark: slots.mark },
                    d,
                    meter,
                );
            },
            Cont::Loop { node, count, entry, next } => {
                if pos == entry {
                    resume_sound(env, *next, pos, slots, d, meter);
                } else {
                    iterate_sound(env, node, count, *next, pos, slots, d, meter);
                }
            },
            _ => {},
        }
    }
}

/// What `iterate_spec` finds is sound.
pub proof fn iterate_sound(
    env: EnvV,
    node: usize,
    count: usize,
    k: Cont,
    pos: usize,
    slots: SlotsV,
    depth: nat,
    meter: Meter,
)
    requires
        ready(env, k, pos, slots),
        node < env.prog.nodes.len(),
    ensures
        sound(env, pos, meter, iterate_spec(env, node, count, k, pos, slots, depth, meter)),
    decreases depth,
{
    if depth > 0 {
        let d = (depth - 1) as nat;
        match env.prog.nodes[node as int] {
            Node::Repeat { child, min, max, lazy } => {
                let again = Cont::Loop { node, count: (count + 1) as usize, entry: pos, next: &k };
                if count < min {
                    run_sound(env, child, again, pos, slots, d, meter);
                } else if count >= max {
                    resume_sound(env, k, pos, slots, d, meter);
                } else if lazy {
                    resume_sound(env, k, pos, slots, d, meter);
                    let leave = resume_spec(env, k, pos, slots, d, meter);
                    run_sound(env, child, again, pos, slots, d, leave.meter);
                } else {
                    run_sound(env, child, again, pos, slots, d, meter);
                    let more = run_spec(env, child, again, pos, slots, d, meter);
                    resume_sound(env, k, pos, slots, d, more.meter);
                }
            },
            _ => {},
        }
    }
}

/// Whether the continuation ends in `Accept`, so that whatever matches
/// through it has passed the test for an empty match.
pub open spec fn accepts(k: Cont) -> bool
    decreases k,
{
    match k {
        Cont::Accept => true,
        Cont::Then { node, next } => accepts(*next),
        Cont::Close { index, start, next } => accepts(*next),
        Cont::Loop { node, count, entry, next } => accepts(*next),
        _ => false,
    }
}

/// Whether a step found no match that the settings refuse for being empty.
pub open spec fn not_refused(env: EnvV, r: StepV) -> bool {
    r.out matches OutcomeV::Matched { end, slots } ==> !refuses_empty(env.ctx, end)
}

/// What `run_spec` finds through a continuation that ends in `Accept` is
/// no match that the settings refuse for being empty.
pub proof fn run_not_refused(
    env: EnvV,
    node: usize,
    k: Cont,
    pos: usize,
    slots: SlotsV,
    depth: nat,
    meter: Meter,
)
    requires
        accepts(k),
    ensures
        not_refused(env, run_spec(env, node, k, pos, slots, depth, meter)),
    decreases depth,
{
    if depth == 0 || meter.steps == 0 {
    } else {
        let d = (depth - 1) as nat;
        let m = meter.tick();
        let n = env.prog.nodes[node as int];
        match n {
            Node::Concat(a, b) => {
                run_not_refused(env, a, Cont::Then { node: b, next: &k }, pos, slots, d, m);
            },
            Node::Alt(a, b) => {
                run_not_refused(env, a, k, pos, slots, d, m);
                let first = run_spec(env, a, k, pos, slots, d, m);
                run_not_refused(env, b, k, pos, slots, d, first.meter);
            },
            Node::Group { child, index } => {
                run_not_refused(
                    env,
                    child,
                    Cont::Close { index, start: pos, next: &k },
                    pos,
                    slots,
                    d,
                    m,
                );
            },
            Node::Repeat { child, min, max, lazy } => {
                iterate_not_refused(env, node, 0, k, pos, slots, d, m);
            },
            Node::Atomic(child) => {
                let inner = run_spec(env, child, Cont::Stop, pos, slots, d, m);
                match inner.out {
                    OutcomeV::Matched { end, slots: inner_slots } => {
                        resume_not_refused(env, k, end, inner_slots, d, inner.meter);
                    },
                    _ => {},
                }
            },
            Node::Look { child, behind, negate, width, at } => {
                if behind && pos < width {
                    resume_not_refused(env, k, pos, slots, d, m);
                } else {
                    let from = if behind {
                        (pos - width) as usize
                    } else {
                        pos
                    };
                    let stop = if behind {
                        Cont::StopAt(pos)
                    } else {
                        Cont::Stop
                    };
                    let inner = run_spec(env, child, stop, from, slots, d, m);
                    match inner.out {
                        OutcomeV::Matched { end, slots: inner_slots } => {
                            resume_not_refused(env, k, pos, inner_slots, d, inner.meter);
                        },
                        OutcomeV::Failed => {
                            resume_not_refused(env, k, pos, slots, d, inner.meter);
                        },
                        _ => {},
                    }
                }
            },
            Node::Mark(i) => {
                resume_not_refused(env, k, pos, SlotsV { caps: slots.caps, mark: Some(i) }, d, m);
            },
            _ => {
                match probe_spec(env, n, pos, slots.caps) {
                    Probe::Advance(next) => {
                        resume_not_refused(env, k, next, slots, d, m);
                    },
                    _ => {},
                }
            },
        }
    }
}

/// What `resume_spec` finds through a continuation that ends in `Accept`
/// is no match that the settings refuse for being empty.
pub proof fn resume_not_refused(
    env: EnvV,
    k: Cont,
    pos: usize,
    slots: SlotsV,
    depth: nat,
    meter: Meter,
)
    requires
        accepts(k),
    ensures
        not_refused(env, resume_spec(env, k, pos, slots, depth, meter)),
    decreases depth,
{
    if depth > 0 {
        let d = (depth - 1) as nat;
        match k {
            Cont::Then { node, next } => {
                run_not_refused(env, node, *next, pos, slots, d, meter);
            },
            Cont::Close { index, start, next } => {
                resume_not_refused(
                    env,
                    *next,
                    pos,
                    SlotsV { caps: set_group(slots.caps, index, start, pos), mark: slots.mark },
                    d,
                    meter,
                );
            },
            Cont::Loop { node, count, entry, next } => {
                if pos == entry {
                    resume_not_refused(env, *next, pos, slots, d, meter);
                } else {
                    iterate_not_refused(env, node, count, *next, pos, slots, d, meter);
                }
            },
            _ => {},
        }
    }
}

/// What `iterate_spec` finds through a continuation that ends in `Accept`
/// is no match that the settings refuse for being empty.
pub proof fn iterate_not_refused(
    env: EnvV,
    node: usize,
    count: usize,
    k: Cont,
    pos: usize,
    slots: SlotsV,
    depth: nat,
    meter: Meter,
)
    requires
        accepts(k),
    ensures
        not_refused(env, iterate_spec(env, node, count, k, pos, slots, depth, meter)),
    decreases depth,
{
    if depth > 0 {
        let d = (depth - 1) as nat;
        match env.prog.nodes[node as int] {
            Node::Repeat { child, min, max, lazy } => {
                let again = Cont::Loop { node, count: (count + 1) as usize, entry: pos, next: &k };
                let leave = resume_spec(env, k, pos, slots, d, meter);
                let more = run_spec(env, child, again, pos, slots, d, meter);
                resume_not_refused(env, k, pos, slots, d, meter);
                resume_not_refused(env, k, pos, slots, d, more.meter);
                run_not_refused(env, child, again, pos, slots, d, meter);
                run_not_refused(env, child, again, pos, slots, d, leave.meter);
            },
            _ => {},
        }
    }
}

/// Whether a note of where the subject ran out lies within a search.
pub open spec fn note_ok(hit_end: Option<usize>, start_offset: usize, len: nat) -> bool {
    hit_end matches Some(h) ==> start_offset <= h <= len
}

/// What a search finds lies within the subject at or after the offset at
/// which the search began: a match begins there or later, ends no earlier
/// than it begins, and has all its groups within the subject, group 0
/// spanning the match.
pub proof fn search_sound(
    prog: ProgramV,
    s: Seq<u8>,
    set: Settings,
    table: Option<Seq<bool>>,
    limits: Limits,
    start_offset: usize,
    at: int,
    hit_end: Option<usize>,
)
    requires
        prog.wf(),
        s.len() <= usize::MAX,
        start_offset <= at,
        note_ok(hit_end, start_offset, s.len()),
    ensures
        found_ok(
            search_spec(prog, s, set, table, limits, start_offset, at, hit_end),
            prog,
            s.len() as int,
            start_offset,
        ),
    decreases s.len() - at,
{
    if at <= s.len() {
        let here = at as usize;
        let env = EnvV { prog, subject: s, ctx: ctx_at(set, start_offset, here) };
        let meter = Meter { steps: limits.steps, hit_end };
        run_sound(env, prog.root, Cont::Accept, here, blank(prog), limits.depth as nat, meter);
        let r = attempt_spec(prog, s, set, limits, start_offset, here, hit_end);
        match r.out {
            OutcomeV::Matched { end, slots } => {
                set_group_ok(slots.caps, prog.group_count as int, s.len() as int, 0, here, end);
            },
            _ => {},
        }
        if at < s.len() {
            search_sound(prog, s, set, table, limits, start_offset, at + 1, hit_end);
            search_sound(prog, s, set, table, limits, start_offset, at + 1, r.meter.hit_end);
        }
    }
}

/// No match of a search is one that the settings refuse for being empty.
pub proof fn search_not_refused(
    prog: ProgramV,
    s: Seq<u8>,
    set: Settings,
    table: Option<Seq<bool>>,
    limits: Limits,
    start_offset: usize,
    at: int,
    hit_end: Option<usize>,
)
    ensures
        search_spec(prog, s, set, table, limits, start_offset, at, hit_end) matches FoundV::Match {
            start,
            end,
            slots,
        } ==> !refuses_empty(ctx_at(set, start_offset, start), end),
    decreases s.len() - at,
{
    if 0 <= at <= s.len() {
        let here = at as usize;
        let env = EnvV { prog, subject: s, ctx: ctx_at(set, start_offset, here) };
        let meter = Meter { steps: limits.steps, hit_end };
        run_not_refused(env, prog.root, Cont::Accept, here, blank(prog), limits.depth as nat, meter);
        let r = attempt_spec(prog, s, set, limits, start_offset, here, hit_end);
        if at < s.len() {
            search_not_refused(prog, s, set, table, limits, start_offset, at + 1, hit_end);
            search_not_refused(prog, s, set, table, limits, start_offset, at + 1, r.meter.hit_end);
        }
    }
}

/// A search that was not asked for partial matches reports none.
pub proof fn search_not_partial(
    prog: ProgramV,
    s: Seq<u8>,
    set: Settings,
    table: Option<Seq<bool>>,
    limits: Limits,
    start_offset: usize,
    at: int,
    hit_end: Option<usize>,
)
    requires
        prog.wf(),
        s.len() <= usize::MAX,
        start_offset <= at,
        set.partial == PartialMode::Off,
        hit_end is None,
    ensures
        !(search_spec(prog, s, set, table, limits, start_offset, at, hit_end) is Partial),
    decreases s.len() - at,
{
    if at <= s.len() {
        let here = at as usize;
        let env = EnvV { prog, subject: s, ctx: ctx_at(set, start_offset, here) };
        let meter = Meter { steps: limits.steps, hit_end };
        run_sound(env, prog.root, Cont::Accept, here, blank(prog), limits.depth as nat, meter);
        let r = attempt_spec(prog, s, set, limits, start_offset, here, hit_end);
        if at < s.len() {
            search_not_partial(prog, s, set, table, limits, start_offset, at + 1, hit_end);
            if r.meter.hit_end is None {
                search_not_partial(prog, s, set, table, limits, start_offset, at + 1, r.meter.hit_end);
            }
        }
    }
}

} // verus!
