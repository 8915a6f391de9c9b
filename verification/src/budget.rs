//! Larger budgets change no result.
//!
//! A result that the matcher reaches within its step budget is the result
//! that it reaches with any larger budget, and the steps that are left over
//! are as many more as the budget was larger. A result that it reaches
//! within one depth is the result that it reaches within any larger depth.
//! And what an attempt finds does not depend on what attempts before it
//! noted.

use crate::matcher::{
    iterate_spec, out_of_subject, probe_spec, resume_spec, run_spec, set_group, Cont, EnvV, Meter,
    OutcomeV, Probe, SlotsV, StepV,
};
use crate::program::Node;
use vstd::prelude::*;

verus! {

/// The meter with `extra` more steps.
pub open spec fn raised(m: Meter, extra: nat) -> Meter {
    Meter { steps: (m.steps + extra) as usize, hit_end: m.hit_end }
}

/// The step with `extra` more steps left.
pub open spec fn lifted(r: StepV, extra: nat) -> StepV {
    StepV { out: r.out, meter: raised(r.meter, extra) }
}

/// Whether, `before` being the meter with which the step `r` was reached
/// and `again` the step reached with `extra` more steps, the two agree and
/// no steps were gained.
pub open spec fn carries(before: Meter, r: StepV, again: StepV, extra: nat) -> bool {
    again == lifted(r, extra) && r.meter.steps <= before.steps
}

/// `run_spec` with more steps.
pub proof fn run_carries(
    env: EnvV,
    node: usize,
    k: Cont,
    pos: usize,
    slots: SlotsV,
    depth: nat,
    meter: Meter,
    extra: nat,
)
    requires
        meter.steps + extra <= usize::MAX,
        !(run_spec(env, node, k, pos, slots, depth, meter).out is LimitHit),
    ensures
        carries(
            meter,
            run_spec(env, node, k, pos, slots, depth, meter),
            run_spec(env, node, k, pos, slots, depth, raised(meter, extra)),
            extra,
        ),
    decreases depth,
{
    if depth == 0 || meter.steps == 0 {
    } else {
        let d = (depth - 1) as nat;
        let m = meter.tick();
        assert(raised(meter, extra).tick() == raised(m, extra));
        let n = env.prog.nodes[node as int];
        match n {
            Node::Concat(a, b) => {
                run_carries(env, a, Cont::Then { node: b, next: &k }, pos, slots, d, m, extra);
            },
            Node::Alt(a, b) => {
                let first = run_spec(env, a, k, pos, slots, d, m);
                run_carries(env, a, k, pos, slots, d, m, extra);
                if first.out is Failed {
                    run_carries(env, b, k, pos, slots, d, first.meter, extra);
                }
            },
            Node::Group { child, index } => {
                run_carries(
                    env,
                    child,
                    Cont::Close { index, start: pos, next: &k },
                    pos,
                    slots,
                    d,
                    m,
                    extra,
                );
            },
            Node::Repeat { child, min, max, lazy } => {
                iterate_carries(env, node, 0, k, pos, slots, d, m, extra);
            },
            Node::Atomic(child) => {
                let inner = run_spec(env, child, Cont::Stop, pos, slots, d, m);
                run_carries(env, child, Cont::Stop, pos, slots, d, m, extra);
                match inner.out {
                    OutcomeV::Matched { end, slots: inner_slots } => {
                        resume_carries(env, k, end, inner_slots, d, inner.meter, extra);
                    },
                    _ => {},
                }
            },
            Node::Look { child, behind, negate, width, at } => {
                if behind && pos < width {
                    if negate {
                        resume_carries(env, k, pos, slots, d, m, extra);
                    }
                } else {
                    let from = if behind {
                        (pos - width) as usize
                    } else {
                        pos
                    };
                    let stop = if behind {
                        Cont::StopAt(pos)
                    } else {
                        Cont::Stop
                    };
                    let inner = run_spec(env, child, stop, from, slots, d, m);
                    run_carries(env, child, stop, from, slots, d, m, extra);
                    match inner.out {
                        OutcomeV::Matched { end, slots: inner_slots } => {
                            if !negate {
                                resume_carries(env, k, pos, inner_slots, d, inner.meter, extra);
                            }
                        },
                        OutcomeV::Failed => {
                            if negate {
                                resume_carries(env, k, pos, slots, d, inner.meter, extra);
                            }
                        },
                        _ => {},
                    }
                }
            },
            Node::Mark(i) => {
                resume_carries(
                    env,
                    k,
                    pos,
                    SlotsV { caps: slots.caps, mark: Some(i) },
                    d,
                    m,
                    extra,
                );
            },
            _ => {
                match probe_spec(env, n, pos, slots.caps) {
                    Probe::Advance(next) => {
                        resume_carries(env, k, next, slots, d, m, extra);
                    },
                    Probe::Reject => {},
                    Probe::NeedMore => {
                        assert(out_of_subject(env.ctx, pos, raised(m, extra)) == lifted(
                            out_of_subject(env.ctx, pos, m),
                            extra,
                        ));
                    },
                }
            },
        }
    }
}

/// `resume_spec` with more steps.
pub proof fn resume_carries(
    env: EnvV,
    k: Cont,
    pos: usize,
    slots: SlotsV,
    depth: nat,
    meter: Meter,
    extra: nat,
)
    requires
        meter.steps + extra <= usize::MAX,
        !(resume_spec(env, k, pos, slots, depth, meter).out is LimitHit),
    ensures
        carries(
            meter,
            resume_spec(env, k, pos, slots, depth, meter),
            resume_spec(env, k, pos, slots, depth, raised(meter, extra)),
            extra,
        ),
    decreases depth,
{
    if depth > 0 {
        let d = (depth - 1) as nat;
        match k {
            Cont::Then { node, next } => {
                run_carries(env, node, *next, pos, slots, d, meter, extra);
            },
            Cont::Close { index, start, next } => {
                resume_carries(
                    env,
                    *next,
                    pos,
                    SlotsV { caps: set_group(slots.caps, index, start, pos), mark: slots.mark },
                    d,
                    meter,
                    extra,
                );
            },
            Cont::Loop { node, count, entry, next } => {
                if pos == entry {
                    resume_carries(env, *next, pos, slots, d, meter, extra);
                } else {
                    iterate_carries(env, node, count, *next, pos, slots, d, meter, extra);
                }
            },
            _ => {},
        }
    }
}

/// `iterate_spec` with more steps.
pub proof fn iterate_carries(
    env: EnvV,
    node: usize,
    count: usize,
    k: Cont,
    pos: usize,
    slots: SlotsV,
    depth: nat,
    meter: Meter,
    extra: nat,
)
    requires
        meter.steps + extra <= usize::MAX,
        !(iterate_spec(env, node, count, k, pos, slots, depth, meter).out is LimitHit),
    ensures
        carries(
            meter,
            iterate_spec(env, node, count, k, pos, slots, depth, meter),
            iterate_spec(env, node, count, k, pos, slots, depth, raised(meter, extra)),
            extra,
        ),
    decreases depth,
{
    if depth > 0 {
        let d = (depth - 1) as nat;
        match env.prog.nodes[node as int] {
            Node::Repeat { child, min, max, lazy } => {
                let again = Cont::Loop { node, count: (count + 1) as usize, entry: pos, next: &k };
                if count < min {
                    run_carries(env, child, again, pos, slots, d, meter, extra);
                } else if count >= max {
                    resume_carries(env, k, pos, slots, d, meter, extra);
                } else if lazy {
                    let leave = resume_spec(env, k, pos, slots, d, meter);
                    resume_carries(env, k, pos, slots, d, meter, extra);
                    if leave.out is Failed {
                        run_carries(env, child, again, pos, slots, d, leave.meter, extra);
                    }
                } else {
                    let more = run_spec(env, child, again, pos, slots, d, meter);
                    run_carries(env, child, again, pos, slots, d, meter, extra);
                    if more.out is Failed {
                        resume_carries(env, k, pos, slots, d, more.meter, extra);
                    }
                }
            },
            _ => {},
        }
    }
}

/// `run_spec` with more depth: a result that is reached within one
/// depth is reached within every larger one.
pub proof fn run_deeper(
    env: EnvV,
    node: usize,
    k: Cont,
    pos: usize,
    slots: SlotsV,
    depth: nat,
    meter: Meter,
    extra: nat,
)
    requires
        !(run_spec(env, node, k, pos, slots, depth, meter).out is LimitHit),
    ensures
        run_spec(env, node, k, pos, slots, depth + extra, meter) == run_spec(
            env,
            node,
            k,
            pos,
            slots,
            depth,
            meter,
        ),
    decreases depth,
{
    if depth == 0 || meter.steps == 0 {
    } else {
        let d = (depth - 1) as nat;
        let m = meter.tick();
        assert((depth + extra - 1) as nat == d + extra);
        let n = env.prog.nodes[node as int];
        match n {
            Node::Concat(a, b) => {
                run_deeper(env, a, Cont::Then { node: b, next: &k }, pos, slots, d, m, extra);
            },
            Node::Alt(a, b) => {
                let first = run_spec(env, a, k, pos, slots, d, m);
                run_deeper(env, a, k, pos, slots, d, m, extra);
                if first.out is Failed {
                    run_deeper(env, b, k, pos, slots, d, first.meter, extra);
                }
            },
            Node::Group { child, index } => {
                run_deeper(
                    env,
                    child,
                    Cont::Close { index, start: pos, next: &k },
                    pos,
                    slots,
                    d,
                    m,
                    extra,
                );
            },
            Node::Repeat { child, min, max, lazy } => {
                iterate_deeper(env, node, 0, k, pos, slots, d, m, extra);
            },
            Node::Atomic(child) => {
                let inner = run_spec(env, child, Cont::Stop, pos, slots, d, m);
                run_deeper(env, child, Cont::Stop, pos, slots, d, m, extra);
                match inner.out {
                    OutcomeV::Matched { end, slots: inner_slots } => {
                        resume_deeper(env, k, end, inner_slots, d, inner.meter, extra);
                    },
                    _ => {},
                }
            },
            Node::Look { child, behind, negate, width, at } => {
                if behind && pos < width {
                    if negate {
                        resume_deeper(env, k, pos, slots, d, m, extra);
                    }
                } else {
                    let from = if behind {
                        (pos - width) as usize
                    } else {
                        pos
                    };
                    let stop = if behind {
                        Cont::StopAt(pos)
                    } else {
                        Cont::Stop
                    };
                    let inner = run_spec(env, child, stop, from, slots, d, m);
                    run_deeper(env, child, stop, from, slots, d, m, extra);
                    match inner.out {
                        OutcomeV::Matched { end, slots: inner_slots } => {
                            if !negate {
                                resume_deeper(env, k, pos, inner_slots, d, inner.meter, extra);
                            }
                        },
                        OutcomeV::Failed => {
                            if negate {
                                resume_deeper(env, k, pos, slots, d, inner.meter, extra);
                            }
                        },
                        _ => {},
                    }
                }
            },
            Node::Mark(i) => {
                resume_deeper(env, k, pos, SlotsV { caps: slots.caps, mark: Some(i) }, d, m, extra);
            },
            _ => {
                match probe_spec(env, n, pos, slots.caps) {
                    Probe::Advance(next) => {
                        resume_deeper(env, k, next, slots, d, m, extra);
                    },
                    _ => {},
                }
            },
        }
    }
}

/// `resume_spec` with more depth.
pub proof fn resume_deeper(
    env: EnvV,
    k: Cont,
    pos: usize,
    slots: SlotsV,
    depth: nat,
    meter: Meter,
    extra: nat,
)
    requires
        !(resume_spec(env, k, pos, slots, depth, meter).out is LimitHit),
    ensures
        resume_spec(env, k, pos, slots, depth + extra, meter) == resume_spec(
            env,
            k,
            pos,
            slots,
            depth,
            meter,
        ),
    decreases depth,
{
    if depth > 0 {
        let d = (depth - 1) as nat;
        assert((depth + extra - 1) as nat == d + extra);
        match k {
            Cont::Then { node, next } => {
                run_deeper(env, node, *next, pos, slots, d, meter, extra);
            },
            Cont::Close { index, start, next } => {
                resume_deeper(
                    env,
                    *next,
                    pos,
                    SlotsV { caps: set_group(slots.caps, index, start, pos), mark: slots.mark },
                    d,
                    meter,
                    extra,
                );
            },
            Cont::Loop { node, count, entry, next } => {
                if pos == entry {
                    resume_deeper(env, *next, pos, slots, d, meter, extra);
                } else {
                    iterate_deeper(env, node, count, *next, pos, slots, d, meter, extra);
                }
            },
            _ => {},
        }
    }
}

/// `iterate_spec` with more depth.
pub proof fn iterate_deeper(
    env: EnvV,
    node: usize,
    count: usize,
    k: Cont,
    pos: usize,
    slots: SlotsV,
    depth: nat,
    meter: Meter,
    extra: nat,
)
    requires
        !(iterate_spec(env, node, count, k, pos, slots, depth, meter).out is LimitHit),
    ensures
        iterate_spec(env, node, count, k, pos, slots, depth + extra, meter) == iterate_spec(
            env,
            node,
            count,
            k,
            pos,
            slots,
            depth,
            meter,
        ),
    decreases depth,
{
    if depth > 0 {
        let d = (depth - 1) as nat;
        assert((depth + extra - 1) as nat == d + extra);
        match env.prog.nodes[node as int] {
            Node::Repeat { child, min, max, lazy } => {
                let again = Cont::Loop { node, count: (count + 1) as usize, entry: pos, next: &k };
                if count < min {
                    run_deeper(env, child, again, pos, slots, d, meter, extra);
                } else if count >= max {
                    resume_deeper(env, k, pos, slots, d, meter, extra);
                } else if lazy {
                    let leave = resume_spec(env, k, pos, slots, d, meter);
                    resume_deeper(env, k, pos, slots, d, meter, extra);
                    if leave.out is Failed {
                        run_deeper(env, child, again, pos, slots, d, leave.meter, extra);
                    }
                } else {
                    let more = run_spec(env, child, again, pos, slots, d, meter);
                    run_deeper(env, child, again, pos, slots, d, meter, extra);
                    if more.out is Failed {
                        resume_deeper(env, k, pos, slots, d, more.meter, extra);
                    }
                }
            },
            _ => {},
        }
    }
}

/// The meter with another note of where the subject ran out.
pub open spec fn noting(m: Meter, note: Option<usize>) -> Meter {
    Meter { steps: m.steps, hit_end: note }
}

/// Whether two steps ended alike and left as many steps.
pub open spec fn alike(a: StepV, b: StepV) -> bool {
    a.out == b.out && a.meter.steps == b.meter.steps
}

/// What `run_spec` finds does not depend on what was noted before of where
/// the subject ran out.
pub proof fn run_ignores_note(
    env: EnvV,
    node: usize,
    k: Cont,
    pos: usize,
    slots: SlotsV,
    depth: nat,
    meter: Meter,
    note: Option<usize>,
)
    ensures
        alike(
            run_spec(env, node, k, pos, slots, depth, noting(meter, note)),
            run_spec(env, node, k, pos, slots, depth, meter),
        ),
    decreases depth,
{
    if depth == 0 || meter.steps == 0 {
    } else {
        let d = (depth - 1) as nat;
        let m = meter.tick();
        let m2 = noting(meter, note).tick();
        assert(m2 == noting(m, note));
        let n = env.prog.nodes[node as int];
        match n {
            Node::Concat(a, b) => {
                run_ignores_note(env, a, Cont::Then { node: b, next: &k }, pos, slots, d, m, note);
            },
            Node::Alt(a, b) => {
                let first = run_spec(env, a, k, pos, slots, d, m);
                let other = run_spec(env, a, k, pos, slots, d, m2);
                run_ignores_note(env, a, k, pos, slots, d, m, note);
                assert(other.meter == noting(first.meter, other.meter.hit_end));
                run_ignores_note(env, b, k, pos, slots, d, first.meter, other.meter.hit_end);
            },
            Node::Group { child, index } => {
                run_ignores_note(
                    env,
                    child,
                    Cont::Close { index, start: pos, next: &k },
                    pos,
                    slots,
                    d,
                    m,
                    note,
                );
            },
            Node::Repeat { child, min, max, lazy } => {
                iterate_ignores_note(env, node, 0, k, pos, slots, d, m, note);
            },
            Node::Atomic(child) => {
                let inner = run_spec(env, child, Cont::Stop, pos, slots, d, m);
                let other = run_spec(env, child, Cont::Stop, pos, slots, d, m2);
                run_ignores_note(env, child, Cont::Stop, pos, slots, d, m, note);
                assert(other.meter == noting(inner.meter, other.meter.hit_end));
                match inner.out {
                    OutcomeV::Matched { end, slots: inner_slots } => {
                        resume_ignores_note(
                            env,
                            k,
                            end,
                            inner_slots,
                            d,
                            inner.meter,
                            other.meter.hit_end,
                        );
                    },
                    _ => {},
                }
            },
            Node::Look { child, behind, negate, width, at } => {
                if behind && pos < width {
                    resume_ignores_note(env, k, pos, slots, d, m, note);
                } else {
                    let from = if behind {
                        (pos - width) as usize
                    } else {
                        pos
                    };
                    let stop = if behind {
                        Cont::StopAt(pos)
                    } else {
                        Cont::Stop
                    };
                    let inner = run_spec(env, child, stop, from, slots, d, m);
                    let other = run_spec(env, child, stop, from, slots, d, m2);
                    run_ignores_note(env, child, stop, from, slots, d, m, note);
                    assert(other.meter == noting(inner.meter, other.meter.hit_end));
                    match inner.out {
                        OutcomeV::Matched { end, slots: inner_slots } => {
                            resume_ignores_note(
                                env,
                                k,
                                pos,
                                inner_slots,
                                d,
                                inner.meter,
                                other.meter.hit_end,
                            );
                        },
                        OutcomeV::Failed => {
                            resume_ignores_note(
                                env,
                                k,
                                pos,
                                slots,
                                d,
                                inner.meter,
                                other.meter.hit_end,
                            );
                        },
                        _ => {},
                    }
                }
            },
            Node::Mark(i) => {
                resume_ignores_note(
                    env,
                    k,
                    pos,
                    SlotsV { caps: slots.caps, mark: Some(i) },
                    d,
                    m,
                    note,
                );
            },
            _ => {
                match probe_spec(env, n, pos, slots.caps) {
                    Probe::Advance(next) => {
                        resume_ignores_note(env, k, next, slots, d, m, note);
                    },
                    _ => {},
                }
            },
        }
    }
}

/// What `resume_spec` finds does not depend on what was noted before.
pub proof fn resume_ignores_note(
    env: EnvV,
    k: Cont,
    pos: usize,
    slots: SlotsV,
    depth: nat,
    meter: Meter,
    note: Option<usize>,
)
    ensures
        alike(
            resume_spec(env, k, pos, slots, depth, noting(meter, note)),
            resume_spec(env, k, pos, slots, depth, meter),
        ),
    decreases depth,
{
    if depth > 0 {
        let d = (depth - 1) as nat;
        match k {
            Cont::Then { node, next } => {
                run_ignores_note(env, node, *next, pos, slots, d, meter, note);
            },
            Cont::Close { index, start, next } => {
                resume_ignores_note(
                    env,
                    *next,
                    pos,
                    SlotsV { caps: set_group(slots.caps, index, start, pos), mark: slots.mark },
                    d,
                    meter,
                    note,
                );
            },
            Cont::Loop { node, count, entry, next } => {
                if pos == entry {
                    resume_ignores_note(env, *next, pos, slots, d, meter, note);
                } else {
                    iterate_ignores_note(env, node, count, *next, pos, slots, d, meter, note);
                }
            },
            _ => {},
        }
    }
}

/// What `iterate_spec` finds does not depend on what was noted before.
pub proof fn iterate_ignores_note(
    env: EnvV,
    node: usize,
    count: usize,
    k: Cont,
    pos: usize,
    slots: SlotsV,
    depth: nat,
    meter: Meter,
    note: Option<usize>,
)
    ensures
        alike(
            iterate_spec(env, node, count, k, pos, slots, depth, noting(meter, note)),
            iterate_spec(env, node, count, k, pos, slots, depth, meter),
        ),
    decreases depth,
{
    if depth > 0 {
        let d = (depth - 1) as nat;
        let m2 = noting(meter, note);
        match env.prog.nodes[node as int] {
            Node::Repeat { child, min, max, lazy } => {
                let again = Cont::Loop { node, count: (count + 1) as usize, entry: pos, next: &k };
                if count < min {
                    run_ignores_note(env, child, again, pos, slots, d, meter, note);
                } else if count >= max {
                    resume_ignores_note(env, k, pos, slots, d, meter, note);
                } else if lazy {
                    let leave = resume_spec(env, k, pos, slots, d, meter);
                    let other = resume_spec(env, k, pos, slots, d, m2);
                    resume_ignores_note(env, k, pos, slots, d, meter, note);
                    assert(other.meter == noting(leave.meter, other.meter.hit_end));
                    run_ignores_note(env, child, again, pos, slots, d, leave.meter, other.meter.hit_end);
                } else {
                    let more = run_spec(env, child, again, pos, slots, d, meter);
                    let other = run_spec(env, child, again, pos, slots, d, m2);
                    run_ignores_note(env, child, again, pos, slots, d, meter, note);
                    assert(other.meter == noting(more.meter, other.meter.hit_end));
                    resume_ignores_note(env, k, pos, slots, d, more.meter, other.meter.hit_end);
                }
            },
            _ => {},
        }
    }
}

} // verus!
