//! What a pattern describes, and that the matcher finds nothing else.
//!
//! `spans` says which stretches of a subject a node describes, without a
//! word of how a match is found: a sequence spans what its parts span one
//! after the other, an alternation what either side spans, a repetition
//! what some number of rounds spans. `match_spans` proves that every match
//! of the matcher is such a stretch. The converse does not hold, and is not
//! meant to: an atomic group, a budget and the order in which alternatives
//! are tried all make the matcher pass over stretches that the pattern
//! describes.

use crate::matcher::{
    iterate_spec, probe_spec, resume_spec, run_spec, set_group, Cont, EnvV, Meter, OutcomeV,
    Probe, SlotsV,
};
use crate::program::{Node, ProgramV};
use crate::search::{
    attempt_spec, blank, ctx_at, is_last, passes_over, search_spec, FoundV, Limits, Settings,
};
use vstd::prelude::*;

verus! {

/// True of every position: it names the position that a statement of
/// existence is about.
pub open spec fn here(mid: usize) -> bool {
    true
}

/// True of every number of rounds.
pub open spec fn times(n: nat) -> bool {
    true
}

/// True of every position and number of rounds.
pub open spec fn here_times(mid: usize, n: nat) -> bool {
    true
}

/// Whether node `node` describes the stretch `from..to` of the subject.
/// A back reference describes every stretch that repeats some captured
/// text, and an assertion that something does not follow or precede
/// describes the empty stretch everywhere.
pub open spec fn spans(env: EnvV, node: int, from: usize, to: usize) -> bool
    decreases node, 0nat,
{
    if node < 0 || node >= env.prog.nodes.len() {
        false
    } else {
        match env.prog.nodes[node] {
            Node::Concat(a, b) => a < node && b < node && exists|mid: usize|
                #[trigger] here(mid) && spans(env, a as int, from, mid) && spans(
                    env,
                    b as int,
                    mid,
                    to,
                ),
            Node::Alt(a, b) => (a < node && spans(env, a as int, from, to)) || (b < node && spans(
                env,
                b as int,
                from,
                to,
            )),
            Node::Repeat { child, min, max, lazy } => child < node && exists|n: nat|
                #[trigger] times(n) && min <= n <= max && spans_times(
                    env,
                    child as int,
                    from,
                    to,
                    n,
                ),
            Node::Group { child, index } => child < node && spans(env, child as int, from, to),
            Node::Atomic(child) => child < node && spans(env, child as int, from, to),
            Node::Look { child, behind, negate, width, at } => to == from && (negate || (child
                < node && if behind {
                from >= width && spans(env, child as int, (from - width) as usize, from)
            } else {
                exists|end: usize| #[trigger] here(end) && spans(env, child as int, from, end)
            })),
            Node::Mark(i) => to == from,
            Node::NamedRef { name, caseless, at } => false,
            simple => exists|caps: Seq<usize>|
                #[trigger] probe_spec(env, simple, from, caps) == Probe::Advance(to),
        }
    }
}

/// Whether `n` rounds of node `child`, one after the other, describe the
/// stretch `from..to`.
pub open spec fn spans_times(env: EnvV, child: int, from: usize, to: usize, n: nat) -> bool
    decreases child, n + 1,
{
    if n == 0 {
        to == from
    } else {
        exists|mid: usize|
            #[trigger] here(mid) && spans(env, child, from, mid) && spans_times(
                env,
                child,
                mid,
                to,
                (n - 1) as nat,
            )
    }
}

/// The node that a repetition repeats.
pub open spec fn repeated(env: EnvV, rep: usize) -> int {
    match env.prog.nodes[rep as int] {
        Node::Repeat { child, min, max, lazy } => child as int,
        _ => -1,
    }
}

/// Whether `n` more rounds after `count` rounds may end the repetition
/// `rep` at `at`: no more rounds than allowed, and no fewer than asked for
/// unless an empty round can make up for them.
pub open spec fn rounds_ok(env: EnvV, rep: usize, count: usize, n: nat, at: usize) -> bool {
    match env.prog.nodes[rep as int] {
        Node::Repeat { child, min, max, lazy } => count + n <= max && (count + n >= min || spans(
            env,
            child as int,
            at,
            at,
        )),
        _ => false,
    }
}

/// Whether the continuation `k` is described from `from` to `to`: what is
/// left to match describes that stretch.
pub open spec fn kspans(env: EnvV, k: Cont, from: usize, to: usize) -> bool
    decreases k, 0nat,
{
    match k {
        Cont::Accept => to == from,
        Cont::Stop => to == from,
        Cont::StopAt(target) => from == target && to == from,
        Cont::Then { node, next } => exists|mid: usize|
            #[trigger] here(mid) && spans(env, node as int, from, mid) && kspans(
                env,
                *next,
                mid,
                to,
            ),
        Cont::Close { index, start, next } => kspans(env, *next, from, to),
        Cont::Loop { node, count, entry, next } => if from == entry {
            kspans(env, *next, from, to)
        } else {
            rounds(env, node, count, *next, from, to)
        },
    }
}

/// Whether more rounds of the repetition `rep`, after `count` rounds, and
/// then `k` are described from `from` to `to`.
pub open spec fn rounds(env: EnvV, rep: usize, count: usize, k: Cont, from: usize, to: usize) -> bool
    decreases k, 1nat,
{
    exists|mid: usize, n: nat|
        #[trigger] here_times(mid, n) && spans_times(env, repeated(env, rep), from, mid, n)
            && rounds_ok(env, rep, count, n, mid) && kspans(env, k, mid, to)
}

/// Whether every round on the continuation belongs to a repetition and is
/// within its upper bound.
pub open spec fn loops_ok(env: EnvV, k: Cont) -> bool
    decreases k,
{
    match k {
        Cont::Then { node, next } => node < env.prog.nodes.len() && loops_ok(env, *next),
        Cont::Close { index, start, next } => loops_ok(env, *next),
        Cont::Loop { node, count, entry, next } => node < env.prog.nodes.len() && (
        env.prog.nodes[node as int] matches Node::Repeat { child, min, max, lazy } && count <= max)
            && loops_ok(env, *next),
        _ => true,
    }
}

/// Rounds that end with an empty round can be followed by more empty
/// rounds.
pub proof fn more_empty_rounds(env: EnvV, child: int, from: usize, to: usize, n: nat, extra: nat)
    requires
        spans_times(env, child, from, to, n),
        spans(env, child, to, to),
    ensures
        spans_times(env, child, from, to, n + extra),
    decreases n + extra,
{
    if n == 0 {
        if extra > 0 {
            more_empty_rounds(env, child, to, to, 0, (extra - 1) as nat);
            assert(here(to) && spans(env, child, from, to) && spans_times(
                env,
                child,
                to,
                to,
                (extra - 1) as nat,
            ));
        }
    } else {
        let mid = choose|mid: usize|
            #[trigger] here(mid) && spans(env, child, from, mid) && spans_times(
                env,
                child,
                mid,
                to,
                (n - 1) as nat,
            );
        more_empty_rounds(env, child, mid, to, (n - 1) as nat, extra);
        assert(here(mid) && spans(env, child, from, mid) && spans_times(
            env,
            child,
            mid,
            to,
            (n + extra - 1) as nat,
        ));
    }
}

/// One round before some rounds is one round more.
pub proof fn one_more_round(env: EnvV, child: int, from: usize, mid: usize, to: usize, n: nat)
    requires
        spans(env, child, from, mid),
        spans_times(env, child, mid, to, n),
    ensures
        spans_times(env, child, from, to, n + 1),
{
    assert(here(mid) && spans(env, child, from, mid) && spans_times(
        env,
        child,
        mid,
        to,
        ((n + 1) - 1) as nat,
    ));
}

/// The end of a match.
pub open spec fn end_of(out: OutcomeV) -> usize {
    match out {
        OutcomeV::Matched { end, slots } => end,
        _ => 0,
    }
}

/// Where `run_spec` finds a match, the node describes a stretch from
/// `pos` on and the continuation the rest up to the end of the match. The
/// result is where the node's stretch ends.
pub proof fn run_spans(
    env: EnvV,
    node: usize,
    k: Cont,
    pos: usize,
    slots: SlotsV,
    depth: nat,
    meter: Meter,
) -> (mid: usize)
    requires
        env.prog.wf(),
        node < env.prog.nodes.len(),
        loops_ok(env, k),
        run_spec(env, node, k, pos, slots, depth, meter).out is Matched,
    ensures
        spans(env, node as int, pos, mid),
        kspans(env, k, mid, end_of(run_spec(env, node, k, pos, slots, depth, meter).out)),
    decreases depth, 0nat,
{
    let whole = run_spec(env, node, k, pos, slots, depth, meter);
    let end = end_of(whole.out);
    let d = (depth - 1) as nat;
    let m = meter.tick();
    let n = env.prog.nodes[node as int];
    match n {
        Node::Concat(a, b) => {
            let then = Cont::Then { node: b, next: &k };
            let first = run_spans(env, a, then, pos, slots, d, m);
            let second = choose|second: usize|
                #[trigger] here(second) && spans(env, b as int, first, second) && kspans(
                    env,
                    k,
                    second,
                    end,
                );
            assert(here(first) && spans(env, a as int, pos, first) && spans(
                env,
                b as int,
                first,
                second,
            ));
            second
        },
        Node::Alt(a, b) => {
            let first = run_spec(env, a, k, pos, slots, d, m);
            if first.out is Failed {
                run_spans(env, b, k, pos, slots, d, first.meter)
            } else {
                run_spans(env, a, k, pos, slots, d, m)
            }
        },
        Node::Group { child, index } => {
            run_spans(env, child, Cont::Close { index, start: pos, next: &k }, pos, slots, d, m)
        },
        Node::Repeat { child, min, max, lazy } => {
            iterate_spans(env, node, 0, k, pos, slots, d, m);
            let (mid, rounds_done) = choose|mid: usize, n: nat|
                #[trigger] here_times(mid, n) && spans_times(env, child as int, pos, mid, n)
                    && rounds_ok(env, node, 0, n, mid) && kspans(env, k, mid, end);
            if rounds_done >= min {
                assert(times(rounds_done) && min <= rounds_done <= max && spans_times(
                    env,
                    child as int,
                    pos,
                    mid,
                    rounds_done,
                ));
            } else {
                more_empty_rounds(
                    env,
                    child as int,
                    pos,
                    mid,
                    rounds_done,
                    (min - rounds_done) as nat,
                );
                assert(times(min as nat) && min <= min as nat <= max && spans_times(
                    env,
                    child as int,
                    pos,
                    mid,
                    min as nat,
                ));
            }
            mid
        },
        Node::Atomic(child) => {
            let inner = run_spec(env, child, Cont::Stop, pos, slots, d, m);
            let mid = run_spans(env, child, Cont::Stop, pos, slots, d, m);
            match inner.out {
                OutcomeV::Matched { end: inner_end, slots: inner_slots } => {
                    resume_spans(env, k, inner_end, inner_slots, d, inner.meter);
                },
                _ => {},
            }
            mid
        },
        Node::Look { child, behind, negate, width, at } => {
            if behind && pos < width {
                resume_spans(env, k, pos, slots, d, m);
            } else {
                let from = if behind {
                    (pos - width) as usize
                } else {
                    pos
                };
                let stop = if behind {
                    Cont::StopAt(pos)
                } else {
                    Cont::Stop
                };
                let inner = run_spec(env, child, stop, from, slots, d, m);
                match inner.out {
                    OutcomeV::Matched { end: inner_end, slots: inner_slots } => {
                        let reached = run_spans(env, child, stop, from, slots, d, m);
                        resume_spans(env, k, pos, inner_slots, d, inner.meter);
                        assert(here(reached) && spans(env, child as int, from, reached));
                    },
                    _ => {
                        resume_spans(env, k, pos, slots, d, inner.meter);
                    },
                }
            }
            pos
        },
        Node::Mark(i) => {
            resume_spans(env, k, pos, SlotsV { caps: slots.caps, mark: Some(i) }, d, m);
            pos
        },
        _ => {
            match probe_spec(env, n, pos, slots.caps) {
                Probe::Advance(next) => {
                    resume_spans(env, k, next, slots, d, m);
                    assert(probe_spec(env, n, pos, slots.caps) == Probe::Advance(next));
                    next
                },
                _ => pos,
            }
        },
    }
}

/// Where `resume_spec` finds a match, the continuation describes the
/// stretch from `pos` to the end of the match.
pub proof fn resume_spans(env: EnvV, k: Cont, pos: usize, slots: SlotsV, depth: nat, meter: Meter)
    requires
        env.prog.wf(),
        loops_ok(env, k),
        resume_spec(env, k, pos, slots, depth, meter).out is Matched,
    ensures
        kspans(env, k, pos, end_of(resume_spec(env, k, pos, slots, depth, meter).out)),
    decreases depth, 0nat,
{
    let d = (depth - 1) as nat;
    match k {
        Cont::Then { node, next } => {
            let mid = run_spans(env, node, *next, pos, slots, d, meter);
            assert(here(mid) && spans(env, node as int, pos, mid));
        },
        Cont::Close { index, start, next } => {
            resume_spans(
                env,
                *next,
                pos,
                SlotsV { caps: set_group(slots.caps, index, start, pos), mark: slots.mark },
                d,
                meter,
            );
        },
        Cont::Loop { node, count, entry, next } => {
            if pos == entry {
                resume_spans(env, *next, pos, slots, d, meter);
            } else {
                iterate_spans(env, node, count, *next, pos, slots, d, meter);
            }
        },
        _ => {},
    }
}

/// Where `iterate_spec` finds a match, more rounds of the repetition and
/// the continuation describe the stretch from `pos` to the end of the
/// match.
pub proof fn iterate_spans(
    env: EnvV,
    node: usize,
    count: usize,
    k: Cont,
    pos: usize,
    slots: SlotsV,
    depth: nat,
    meter: Meter,
)
    requires
        env.prog.wf(),
        node < env.prog.nodes.len(),
        env.prog.nodes[node as int] matches Node::Repeat { child, min, max, lazy } && count <= max,
        loops_ok(env, k),
        iterate_spec(env, node, count, k, pos, slots, depth, meter).out is Matched,
    ensures
        rounds(
            env,
            node,
            count,
            k,
            pos,
            end_of(iterate_spec(env, node, count, k, pos, slots, depth, meter).out),
        ),
    decreases depth, 0nat,
{
    let whole = iterate_spec(env, node, count, k, pos, slots, depth, meter);
    let end = end_of(whole.out);
    let d = (depth - 1) as nat;
    match env.prog.nodes[node as int] {
        Node::Repeat { child, min, max, lazy } => {
            let again = Cont::Loop { node, count: (count + 1) as usize, entry: pos, next: &k };
            let leave = resume_spec(env, k, pos, slots, d, meter);
            let more = run_spec(env, child, again, pos, slots, d, meter);
            if count < min {
                another_round(env, node, count, k, pos, slots, d, meter);
            } else if count >= max {
                resume_spans(env, k, pos, slots, d, meter);
                assert(here_times(pos, 0) && spans_times(env, child as int, pos, pos, 0)
                    && rounds_ok(env, node, count, 0, pos) && kspans(env, k, pos, end));
            } else if lazy {
                if leave.out is Failed {
                    another_round(env, node, count, k, pos, slots, d, leave.meter);
                } else {
                    resume_spans(env, k, pos, slots, d, meter);
                    assert(here_times(pos, 0) && spans_times(env, child as int, pos, pos, 0)
                        && rounds_ok(env, node, count, 0, pos) && kspans(env, k, pos, end));
                }
            } else {
                if more.out is Failed {
                    resume_spans(env, k, pos, slots, d, more.meter);
                    assert(here_times(pos, 0) && spans_times(env, child as int, pos, pos, 0)
                        && rounds_ok(env, node, count, 0, pos) && kspans(env, k, pos, end));
                } else {
                    another_round(env, node, count, k, pos, slots, d, meter);
                }
            }
        },
        _ => {},
    }
}

/// Where one more round of a repetition and what follows it find a match,
/// more rounds of the repetition and the continuation describe the stretch
/// from `pos` to the end of the match.
pub proof fn another_round(
    env: EnvV,
    node: usize,
    count: usize,
    k: Cont,
    pos: usize,
    slots: SlotsV,
    depth: nat,
    meter: Meter,
)
    requires
        env.prog.wf(),
        node < env.prog.nodes.len(),
        env.prog.nodes[node as int] matches Node::Repeat { child, min, max, lazy } && count < max,
        loops_ok(env, k),
        run_spec(
            env,
            repeated(env, node) as usize,
            Cont::Loop { node, count: (count + 1) as usize, entry: pos, next: &k },
            pos,
            slots,
            depth,
            meter,
        ).out is Matched,
    ensures
        rounds(
            env,
            node,
            count,
            k,
            pos,
            end_of(
                run_spec(
                    env,
                    repeated(env, node) as usize,
                    Cont::Loop { node, count: (count + 1) as usize, entry: pos, next: &k },
                    pos,
                    slots,
                    depth,
                    meter,
                ).out,
            ),
        ),
    decreases depth, 1nat,
{
    let child = repeated(env, node);
    let again = Cont::Loop { node, count: (count + 1) as usize, entry: pos, next: &k };
    let end = end_of(run_spec(env, child as usize, again, pos, slots, depth, meter).out);
    let reached = run_spans(env, child as usize, again, pos, slots, depth, meter);
    if reached == pos {
        one_more_round(env, child, pos, pos, pos, 0);
        assert(here_times(pos, 1) && spans_times(env, child, pos, pos, 1) && rounds_ok(
            env,
            node,
            count,
            1,
            pos,
        ) && kspans(env, k, pos, end));
    } else {
        assert(kspans(env, again, reached, end));
        assert(rounds(env, node, (count + 1) as usize, k, reached, end));
        let (mid, n) = choose|mid: usize, n: nat|
            #[trigger] here_times(mid, n) && spans_times(env, child, reached, mid, n) && rounds_ok(
                env,
                node,
                (count + 1) as usize,
                n,
                mid,
            ) && kspans(env, k, mid, end);
        one_more_round(env, child, pos, reached, mid, n);
        assert(here_times(mid, n + 1) && spans_times(env, child, pos, mid, n + 1) && rounds_ok(
            env,
            node,
            count,
            n + 1,
            mid,
        ) && kspans(env, k, mid, end));
    }
}

/// Every match of a search is a stretch that the pattern describes: the
/// root of the program spans the subject from the start of the match to its
/// end.
pub proof fn match_spans(
    prog: ProgramV,
    s: Seq<u8>,
    set: Settings,
    table: Option<Seq<bool>>,
    limits: Limits,
    start_offset: usize,
    at: int,
    hit_end: Option<usize>,
)
    requires
        prog.wf(),
    ensures
        search_spec(prog, s, set, table, limits, start_offset, at, hit_end) matches FoundV::Match {
            start,
            end,
            slots,
        } ==> spans(
            EnvV { prog, subject: s, ctx: ctx_at(set, start_offset, start) },
            prog.root as int,
            start,
            end,
        ),
    decreases s.len() - at,
{
    if 0 <= at <= s.len() {
        let here_at = at as usize;
        let env = EnvV { prog, subject: s, ctx: ctx_at(set, start_offset, here_at) };
        let meter = Meter { steps: limits.steps, hit_end };
        let r = attempt_spec(prog, s, set, limits, start_offset, here_at, hit_end);
        if passes_over(table, s, here_at) {
            if !is_last(s, set, at) {
                match_spans(prog, s, set, table, limits, start_offset, at + 1, hit_end);
            }
        } else if r.out is Matched {
            let mid = run_spans(
                env,
                prog.root,
                Cont::Accept,
                here_at,
                blank(prog),
                limits.depth as nat,
                meter,
            );
        } else if r.out is Failed && !is_last(s, set, at) {
            match_spans(prog, s, set, table, limits, start_offset, at + 1, r.meter.hit_end);
        }
    }
}

} // verus!
