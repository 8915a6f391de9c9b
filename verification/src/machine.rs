//! The matcher as a machine with a stack of its own.
//!
//! `run_spec` says what a match is by recursion. The machine computes the
//! same without recursion: continuations live in an arena and are named by
//! their numbers, and every call that the recursion has to come back from
//! leaves a handler on a stack. The machine goes from task to task until a
//! result stands with no handler left.

use crate::matcher::{
    close_group, cont_ok, cont_ok_later, copy_slots, failed, iterate_spec, limit_hit, probe,
    resume_spec, run_out, run_spec, set_group_ok, slots_ok, Cont, Env, EnvV, Meter, Outcome,
    OutcomeV, Probe, Slots, Step, StepV,
};
use crate::program::Node;
use vstd::prelude::*;

verus! {

/// A continuation frame in the arena; `next` is the number of the frame
/// that follows it.
#[derive(Clone, Copy, Debug)]
pub enum Frame {
    Accept,
    Stop,
    StopAt(usize),
    Then { node: usize, next: usize },
    Close { index: usize, start: usize, next: usize },
    Loop { node: usize, count: usize, entry: usize, next: usize },
}

impl Frame {
    /// The number of the frame that follows this one, if one does.
    pub open spec fn next(self) -> Option<usize> {
        match self {
            Frame::Then { node, next } => Some(next),
            Frame::Close { index, start, next } => Some(next),
            Frame::Loop { node, count, entry, next } => Some(next),
            _ => None,
        }
    }
}

/// Whether every frame of the arena is followed by an earlier one.
pub open spec fn links_ok(arena: Seq<Frame>) -> bool {
    forall|i: int|
        0 <= i < arena.len() ==> ((#[trigger] arena[i]).next() matches Some(n) ==> n < i)
}

/// The continuation that frame `i` of the arena begins.
pub open spec fn cont_of<'a>(arena: Seq<Frame>, i: int) -> Cont<'a>
    decreases i,
{
    if i < 0 || i >= arena.len() {
        Cont::Accept
    } else {
        match arena[i] {
            Frame::Accept => Cont::Accept,
            Frame::Stop => Cont::Stop,
            Frame::StopAt(target) => Cont::StopAt(target),
            Frame::Then { node, next } => if next < i {
                Cont::Then { node, next: &cont_of(arena, next as int) }
            } else {
                Cont::Accept
            },
            Frame::Close { index, start, next } => if next < i {
                Cont::Close { index, start, next: &cont_of(arena, next as int) }
            } else {
                Cont::Accept
            },
            Frame::Loop { node, count, entry, next } => if next < i {
                Cont::Loop { node, count, entry, next: &cont_of(arena, next as int) }
            } else {
                Cont::Accept
            },
        }
    }
}

/// Whether `a` is the beginning of `b`.
pub open spec fn begins(a: Seq<Frame>, b: Seq<Frame>) -> bool {
    a.len() <= b.len() && forall|i: int| 0 <= i < a.len() ==> a[i] == b[i]
}

/// A frame begins the same continuation in an arena and in a longer one.
pub proof fn cont_of_begins(a: Seq<Frame>, b: Seq<Frame>, i: int)
    requires
        begins(a, b),
        i < a.len(),
    ensures
        cont_of(a, i) == cont_of(b, i),
    decreases i,
{
    if 0 <= i {
        match a[i] {
            Frame::Then { node, next } => if next < i {
                cont_of_begins(a, b, next as int);
            },
            Frame::Close { index, start, next } => if next < i {
                cont_of_begins(a, b, next as int);
            },
            Frame::Loop { node, count, entry, next } => if next < i {
                cont_of_begins(a, b, next as int);
            },
            _ => {},
        }
    }
}

/// What the machine does next.
#[derive(Debug)]
pub enum Task {
    Run { node: usize, k: usize, pos: usize, slots: Slots, depth: usize },
    Resume { k: usize, pos: usize, slots: Slots, depth: usize },
    Iterate { node: usize, count: usize, k: usize, pos: usize, slots: Slots, depth: usize },
    /// Nothing: a result stands.
    Done(Outcome),
}

/// What a task comes to.
pub open spec fn eval(env: EnvV, arena: Seq<Frame>, t: Task, meter: Meter) -> StepV {
    match t {
        Task::Run { node, k, pos, slots, depth } => run_spec(
            env,
            node,
            cont_of(arena, k as int),
            pos,
            slots@,
            depth as nat,
            meter,
        ),
        Task::Resume { k, pos, slots, depth } => resume_spec(
            env,
            cont_of(arena, k as int),
            pos,
            slots@,
            depth as nat,
            meter,
        ),
        Task::Iterate { node, count, k, pos, slots, depth } => iterate_spec(
            env,
            node,
            count,
            cont_of(arena, k as int),
            pos,
            slots@,
            depth as nat,
            meter,
        ),
        Task::Done(out) => StepV { out: out@, meter },
    }
}

/// What is left to do when a result comes back. `mark` is the length that
/// the arena had when the handler was made.
#[derive(Debug)]
pub enum Handler {
    /// After a failure, run `node`.
    OrRun { node: usize, k: usize, pos: usize, slots: Slots, depth: usize, mark: usize },
    /// After a failure, resume `k`.
    OrResume { k: usize, pos: usize, slots: Slots, depth: usize, mark: usize },
    /// After a match, resume `k` where the match ended.
    Atomic { k: usize, pos: usize, depth: usize, mark: usize },
    /// After a match, or with `negate` after a failure, resume `k` at
    /// `pos`. The assertion began to match at `floor`.
    Look { k: usize, pos: usize, floor: usize, slots: Slots, depth: usize, negate: bool, mark: usize },
}

impl Handler {
    pub open spec fn k(self) -> usize {
        match self {
            Handler::OrRun { node, k, pos, slots, depth, mark } => k,
            Handler::OrResume { k, pos, slots, depth, mark } => k,
            Handler::Atomic { k, pos, depth, mark } => k,
            Handler::Look { k, pos, floor, slots, depth, negate, mark } => k,
        }
    }

    pub open spec fn pos(self) -> usize {
        match self {
            Handler::OrRun { node, k, pos, slots, depth, mark } => pos,
            Handler::OrResume { k, pos, slots, depth, mark } => pos,
            Handler::Atomic { k, pos, depth, mark } => pos,
            Handler::Look { k, pos, floor, slots, depth, negate, mark } => pos,
        }
    }

    /// The least position of what runs above the handler.
    pub open spec fn floor(self) -> usize {
        match self {
            Handler::Look { k, pos, floor, slots, depth, negate, mark } => floor,
            _ => self.pos(),
        }
    }

    pub open spec fn spec_mark(self) -> usize {
        match self {
            Handler::OrRun { node, k, pos, slots, depth, mark } => mark,
            Handler::OrResume { k, pos, slots, depth, mark } => mark,
            Handler::Atomic { k, pos, depth, mark } => mark,
            Handler::Look { k, pos, floor, slots, depth, negate, mark } => mark,
        }
    }

    pub fn mark(&self) -> (m: usize)
        ensures
            m == self.spec_mark(),
    {
        match self {
            Handler::OrRun { node, k, pos, slots, depth, mark } => *mark,
            Handler::OrResume { k, pos, slots, depth, mark } => *mark,
            Handler::Atomic { k, pos, depth, mark } => *mark,
            Handler::Look { k, pos, floor, slots, depth, negate, mark } => *mark,
        }
    }

    /// The weight of the handler in the measure by which the machine
    /// comes to an end.
    pub open spec fn weight(self) -> nat {
        match self {
            Handler::OrRun { node, k, pos, slots, depth, mark } => 1,
            Handler::OrResume { k, pos, slots, depth, mark } => (2 * (depth + 1) + 1) as nat,
            Handler::Atomic { k, pos, depth, mark } => (2 * (depth + 1) + 1) as nat,
            Handler::Look { k, pos, floor, slots, depth, negate, mark } => (2 * (depth + 1)
                + 1) as nat,
        }
    }
}

/// What the handler makes of the result `r`.
pub open spec fn handle(env: EnvV, arena: Seq<Frame>, h: Handler, r: StepV) -> StepV {
    match h {
        Handler::OrRun { node, k, pos, slots, depth, mark } => if r.out is Failed {
            run_spec(env, node, cont_of(arena, k as int), pos, slots@, depth as nat, r.meter)
        } else {
            r
        },
        Handler::OrResume { k, pos, slots, depth, mark } => if r.out is Failed {
            resume_spec(env, cont_of(arena, k as int), pos, slots@, depth as nat, r.meter)
        } else {
            r
        },
        Handler::Atomic { k, pos, depth, mark } => match r.out {
            OutcomeV::Matched { end, slots } => resume_spec(
                env,
                cont_of(arena, k as int),
                end,
                slots,
                depth as nat,
                r.meter,
            ),
            _ => r,
        },
        Handler::Look { k, pos, floor, slots, depth, negate, mark } => match r.out {
            OutcomeV::Matched { end, slots: inner } => if negate {
                failed(r.meter)
            } else {
                resume_spec(env, cont_of(arena, k as int), pos, inner, depth as nat, r.meter)
            },
            OutcomeV::Failed => if negate {
                resume_spec(env, cont_of(arena, k as int), pos, slots@, depth as nat, r.meter)
            } else {
                r
            },
            _ => r,
        },
    }
}

/// What the handlers of a stack, from the top down, make of the result `r`.
pub open spec fn finish(env: EnvV, arena: Seq<Frame>, stack: Seq<Handler>, r: StepV) -> StepV
    decreases stack.len(),
{
    if stack.len() == 0 {
        r
    } else {
        finish(env, arena, stack.drop_last(), handle(env, arena, stack.last(), r))
    }
}

/// The handlers of a stack make the same of a result in an arena and in a
/// longer one.
pub proof fn finish_begins(env: EnvV, a: Seq<Frame>, b: Seq<Frame>, stack: Seq<Handler>, r: StepV)
    requires
        begins(a, b),
        forall|i: int| 0 <= i < stack.len() ==> (#[trigger] stack[i]).k() < a.len(),
    ensures
        finish(env, a, stack, r) == finish(env, b, stack, r),
    decreases stack.len(),
{
    if stack.len() > 0 {
        let h = stack.last();
        cont_of_begins(a, b, h.k() as int);
        let rest = stack.drop_last();
        assert forall|i: int| 0 <= i < rest.len() implies (#[trigger] rest[i]).k() < a.len() by {
            assert(rest[i] == stack[i]);
        }
        finish_begins(env, a, b, rest, handle(env, a, h, r));
    }
}

/// The weight of a stack of handlers.
pub open spec fn stack_weight(stack: Seq<Handler>) -> nat
    decreases stack.len(),
{
    if stack.len() == 0 {
        0
    } else {
        stack_weight(stack.drop_last()) + stack.last().weight()
    }
}

/// The weight of a task.
pub open spec fn task_weight(t: Task) -> nat {
    match t {
        Task::Run { node, k, pos, slots, depth } => (2 * (depth + 1)) as nat,
        Task::Resume { k, pos, slots, depth } => (2 * (depth + 1)) as nat,
        Task::Iterate { node, count, k, pos, slots, depth } => (2 * (depth + 1)) as nat,
        Task::Done(out) => 0,
    }
}

/// Whether the task enters a node and so takes a step off the meter.
pub open spec fn ticks(t: Task, meter: Meter) -> bool {
    t matches Task::Run { node, k, pos, slots, depth } && depth > 0 && meter.steps > 0
}

/// The steps that are left once the task has taken its own.
pub open spec fn steps_left(t: Task, meter: Meter) -> nat {
    if ticks(t, meter) {
        (meter.steps - 1) as nat
    } else {
        meter.steps as nat
    }
}

/// Whether a task names what exists and lies within the subject at or
/// after `floor`.
pub open spec fn task_ok(env: &Env, arena: Seq<Frame>, t: Task, floor: usize) -> bool {
    let len = env.subject@.len() as int;
    match t {
        Task::Run { node, k, pos, slots, depth } => {
            &&& node < env.prog@.nodes.len()
            &&& k < arena.len()
            &&& floor <= pos <= len
            &&& slots_ok(slots@, env.prog@, len)
            &&& cont_ok(env.prog@, cont_of(arena, k as int), pos)
        },
        Task::Resume { k, pos, slots, depth } => {
            &&& k < arena.len()
            &&& floor <= pos <= len
            &&& slots_ok(slots@, env.prog@, len)
            &&& cont_ok(env.prog@, cont_of(arena, k as int), pos)
        },
        Task::Iterate { node, count, k, pos, slots, depth } => {
            &&& node < env.prog@.nodes.len()
            &&& k < arena.len()
            &&& floor <= pos <= len
            &&& slots_ok(slots@, env.prog@, len)
            &&& cont_ok(env.prog@, cont_of(arena, k as int), pos)
        },
        Task::Done(out) => out matches Outcome::Matched { end, slots } ==> floor <= end <= len
            && slots_ok(slots@, env.prog@, len),
    }
}

/// Whether a handler names what exists and lies within the subject.
pub open spec fn handler_ok(env: &Env, arena: Seq<Frame>, h: Handler) -> bool {
    let len = env.subject@.len() as int;
    &&& h.k() < h.spec_mark() <= arena.len()
    &&& h.floor() <= h.pos() <= len
    &&& cont_ok(env.prog@, cont_of(arena, h.k() as int), h.pos())
    &&& match h {
        Handler::OrRun { node, k, pos, slots, depth, mark } => node < env.prog@.nodes.len()
            && slots_ok(slots@, env.prog@, len),
        Handler::OrResume { k, pos, slots, depth, mark } => slots_ok(slots@, env.prog@, len),
        Handler::Atomic { k, pos, depth, mark } => true,
        Handler::Look { k, pos, floor, slots, depth, negate, mark } => slots_ok(
            slots@,
            env.prog@,
            len,
        ),
    }
}

/// The least position of what runs above a stack whose bottom runs from
/// `base` on.
pub open spec fn top_floor(stack: Seq<Handler>, base: usize) -> usize {
    if stack.len() == 0 {
        base
    } else {
        stack.last().floor()
    }
}

/// Whether every handler of a stack is in order, stands at or after the
/// floor of the one below it, and was made when the arena was no shorter
/// than for the one below it.
#[verifier::opaque]
pub open spec fn stack_ok(env: &Env, arena: Seq<Frame>, stack: Seq<Handler>, base: usize) -> bool {
    forall|i: int|
        0 <= i < stack.len() ==> {
            &&& handler_ok(env, arena, #[trigger] stack[i])
            &&& top_floor(stack.subrange(0, i), base) <= stack[i].pos()
            &&& (i > 0 ==> stack[i - 1].spec_mark() <= stack[i].spec_mark())
        }
}

/// The position of a task that is no result.
pub open spec fn task_pos(t: Task) -> usize {
    match t {
        Task::Run { node, k, pos, slots, depth } => pos,
        Task::Resume { k, pos, slots, depth } => pos,
        Task::Iterate { node, count, k, pos, slots, depth } => pos,
        Task::Done(out) => 0,
    }
}

/// One move of the machine: the next task, the meter, and the handler that
/// the move leaves on the stack, if it leaves one.
pub struct Moved {
    pub task: Task,
    pub meter: Meter,
    pub push: Option<Handler>,
}

/// Whether the meter `after` notes what `before` noted, or else the start
/// of this attempt.
pub open spec fn notes_kept(env: &Env, before: Meter, after: Meter) -> bool {
    after.hit_end == before.hit_end || after.hit_end == Some(env.ctx.attempt)
}

/// Whether the move `m` from the task `t` comes to what `t` comes to, keeps
/// everything in order, and brings the machine nearer to its end.
pub open spec fn moved_ok(env: &Env, a: Seq<Frame>, b: Seq<Frame>, t: Task, meter: Meter, m: Moved) -> bool {
    let r0 = eval(env@, a, t, meter);
    let r1 = eval(env@, b, m.task, m.meter);
    &&& begins(a, b)
    &&& notes_kept(env, meter, m.meter)
    &&& steps_left(m.task, m.meter) <= steps_left(t, meter)
    &&& match m.push {
        None => {
            &&& r1 == r0
            &&& task_ok(env, b, m.task, task_pos(t))
            &&& (steps_left(m.task, m.meter) == steps_left(t, meter) ==> task_weight(m.task)
                < task_weight(t))
        },
        Some(h) => {
            &&& handle(env@, b, h, r1) == r0
            &&& handler_ok(env, b, h)
            &&& h.pos() == task_pos(t)
            &&& a.len() <= h.spec_mark()
            &&& task_ok(env, b, m.task, h.floor())
            &&& (steps_left(m.task, m.meter) == steps_left(t, meter) ==> h.weight() + task_weight(
                m.task,
            ) < task_weight(t))
        },
    }
}

/// Appends a frame and gives its number.
pub fn add_frame(arena: &mut Vec<Frame>, f: Frame) -> (i: usize)
    requires
        links_ok(old(arena)@),
        f.next() matches Some(n) ==> n < old(arena)@.len(),
    ensures
        i == old(arena)@.len(),
        final(arena)@ == old(arena)@.push(f),
        begins(old(arena)@, final(arena)@),
        links_ok(final(arena)@),
{
    let i = arena.len();
    arena.push(f);
    i
}

/// The continuation that a frame begins once it is appended to the arena.
pub proof fn cont_of_new(a: Seq<Frame>, f: Frame)
    ensures
        cont_of(a.push(f), a.len() as int) == match f {
            Frame::Accept => Cont::Accept,
            Frame::Stop => Cont::Stop,
            Frame::StopAt(target) => Cont::StopAt(target),
            Frame::Then { node, next } => if next < a.len() {
                Cont::Then { node, next: &cont_of(a, next as int) }
            } else {
                Cont::Accept
            },
            Frame::Close { index, start, next } => if next < a.len() {
                Cont::Close { index, start, next: &cont_of(a, next as int) }
            } else {
                Cont::Accept
            },
            Frame::Loop { node, count, entry, next } => if next < a.len() {
                Cont::Loop { node, count, entry, next: &cont_of(a, next as int) }
            } else {
                Cont::Accept
            },
        },
{
    let b = a.push(f);
    assert(begins(a, b));
    match f {
        Frame::Then { node, next } => if next < a.len() {
            cont_of_begins(a, b, next as int);
        },
        Frame::Close { index, start, next } => if next < a.len() {
            cont_of_begins(a, b, next as int);
        },
        Frame::Loop { node, count, entry, next } => if next < a.len() {
            cont_of_begins(a, b, next as int);
        },
        _ => {},
    }
}

/// The move from a task that resumes a continuation.
pub fn resume_move(env: &Env, arena: &Vec<Frame>, k: usize, pos: usize, slots: Slots, depth: usize, meter: Meter) -> (m:
    Moved)
    requires
        env.wf(),
        links_ok(arena@),
        task_ok(env, arena@, Task::Resume { k, pos, slots, depth }, 0),
    ensures
        moved_ok(env, arena@, arena@, Task::Resume { k, pos, slots, depth }, meter, m),
        m.push is None,
{
    let ghost t0 = Task::Resume { k, pos, slots, depth };
    let ghost r0 = eval(env@, arena@, t0, meter);
    let ghost kc = cont_of(arena@, k as int);
    assert(r0 == resume_spec(env@, kc, pos, slots@, depth as nat, meter));
    let task = match arena[k] {
        Frame::Accept => {
            let ctx = &env.ctx;
            if pos == ctx.attempt && (ctx.not_empty || (ctx.not_empty_at_start && ctx.attempt
                == ctx.start_offset)) {
                Task::Done(Outcome::Failed)
            } else {
                Task::Done(Outcome::Matched { end: pos, slots })
            }
        },
        Frame::Stop => Task::Done(Outcome::Matched { end: pos, slots }),
        Frame::StopAt(target) => if pos == target {
            Task::Done(Outcome::Matched { end: pos, slots })
        } else {
            Task::Done(Outcome::Failed)
        },
        Frame::Then { node, next } => if depth == 0 {
            Task::Done(Outcome::LimitHit)
        } else {
            Task::Run { node, k: next, pos, slots, depth: depth - 1 }
        },
        Frame::Close { index, start, next } => if depth == 0 {
            Task::Done(Outcome::LimitHit)
        } else {
            proof {
                set_group_ok(
                    slots@.caps,
                    env.prog.group_count as int,
                    env.subject@.len() as int,
                    index,
                    start,
                    pos,
                );
            }
            let closed = close_group(&slots, index, start, pos);
            Task::Resume { k: next, pos, slots: closed, depth: depth - 1 }
        },
        Frame::Loop { node, count, entry, next } => if depth == 0 {
            Task::Done(Outcome::LimitHit)
        } else if pos == entry {
            Task::Resume { k: next, pos, slots, depth: depth - 1 }
        } else {
            Task::Iterate { node, count, k: next, pos, slots, depth: depth - 1 }
        },
    };
    Moved { task, meter, push: None }
}

/// The move from a task that stands between two rounds of a repetition.
pub fn iterate_move(
    env: &Env,
    arena: &mut Vec<Frame>,
    node: usize,
    count: usize,
    k: usize,
    pos: usize,
    slots: Slots,
    depth: usize,
    meter: Meter,
) -> (m: Moved)
    requires
        env.wf(),
        links_ok(old(arena)@),
        task_ok(env, old(arena)@, Task::Iterate { node, count, k, pos, slots, depth }, 0),
    ensures
        links_ok(final(arena)@),
        moved_ok(
            env,
            old(arena)@,
            final(arena)@,
            Task::Iterate { node, count, k, pos, slots, depth },
            meter,
            m,
        ),
{
    let ghost a = arena@;
    let ghost kc = cont_of(a, k as int);
    let ghost r0 = iterate_spec(env@, node, count, kc, pos, slots@, depth as nat, meter);
    if depth == 0 {
        return Moved { task: Task::Done(Outcome::LimitHit), meter, push: None };
    }
    let d = depth - 1;
    match env.prog.nodes[node] {
        Node::Repeat { child, min, max, lazy } => {
            if count >= min && count >= max {
                return Moved { task: Task::Resume { k, pos, slots, depth: d }, meter, push: None };
            }
            let frame = Frame::Loop { node, count: count + 1, entry: pos, next: k };
            let ghost again = Cont::Loop { node, count: (count + 1) as usize, entry: pos, next: &kc };
            if count < min {
                let again_k = add_frame(arena, frame);
                proof {
                    cont_of_new(a, frame);
                    cont_of_begins(a, arena@, k as int);
                }
                Moved {
                    task: Task::Run { node: child, k: again_k, pos, slots, depth: d },
                    meter,
                    push: None,
                }
            } else if lazy {
                let again_k = add_frame(arena, frame);
                proof {
                    cont_of_new(a, frame);
                    cont_of_begins(a, arena@, k as int);
                }
                let kept = copy_slots(&slots);
                Moved {
                    task: Task::Resume { k, pos, slots, depth: d },
                    meter,
                    push: Some(
                        Handler::OrRun {
                            node: child,
                            k: again_k,
                            pos,
                            slots: kept,
                            depth: d,
                            mark: arena.len(),
                        },
                    ),
                }
            } else if d > 0 && meter.steps > 0 {
                let mark = arena.len();
                let again_k = add_frame(arena, frame);
                proof {
                    cont_of_new(a, frame);
                    cont_of_begins(a, arena@, k as int);
                }
                let kept = copy_slots(&slots);
                Moved {
                    task: Task::Run { node: child, k: again_k, pos, slots, depth: d },
                    meter,
                    push: Some(Handler::OrResume { k, pos, slots: kept, depth: d, mark }),
                }
            } else {
                proof {
                    assert(run_spec(env@, child, again, pos, slots@, d as nat, meter) == limit_hit(
                        meter,
                    ));
                }
                Moved { task: Task::Done(Outcome::LimitHit), meter, push: None }
            }
        },
        _ => Moved { task: Task::Done(Outcome::Failed), meter, push: None },
    }
}

/// The move from a task that enters a node.
pub fn run_move(
    env: &Env,
    arena: &mut Vec<Frame>,
    node: usize,
    k: usize,
    pos: usize,
    slots: Slots,
    depth: usize,
    meter: Meter,
) -> (m: Moved)
    requires
        env.wf(),
        links_ok(old(arena)@),
        task_ok(env, old(arena)@, Task::Run { node, k, pos, slots, depth }, 0),
    ensures
        links_ok(final(arena)@),
        moved_ok(env, old(arena)@, final(arena)@, Task::Run { node, k, pos, slots, depth }, meter, m),
{
    let ghost a = arena@;
    let ghost kc = cont_of(a, k as int);
    let ghost r0 = run_spec(env@, node, kc, pos, slots@, depth as nat, meter);
    if depth == 0 || meter.steps == 0 {
        return Moved { task: Task::Done(Outcome::LimitHit), meter, push: None };
    }
    let d = depth - 1;
    let m = meter.tick();
    let goes_on = d > 0 && m.steps > 0;
    match env.prog.nodes[node] {
        Node::Concat(first, second) => {
            let frame = Frame::Then { node: second, next: k };
            let then_k = add_frame(arena, frame);
            proof {
                cont_of_new(a, frame);
            }
            Moved {
                task: Task::Run { node: first, k: then_k, pos, slots, depth: d },
                meter: m,
                push: None,
            }
        },
        Node::Alt(first, second) => {
            if goes_on {
                let kept = copy_slots(&slots);
                Moved {
                    task: Task::Run { node: first, k, pos, slots, depth: d },
                    meter: m,
                    push: Some(
                        Handler::OrRun {
                            node: second,
                            k,
                            pos,
                            slots: kept,
                            depth: d,
                            mark: arena.len(),
                        },
                    ),
                }
            } else {
                proof {
                    assert(run_spec(env@, first, kc, pos, slots@, d as nat, m) == limit_hit(m));
                }
                Moved { task: Task::Done(Outcome::LimitHit), meter: m, push: None }
            }
        },
        Node::Group { child, index } => {
            let frame = Frame::Close { index, start: pos, next: k };
            let close_k = add_frame(arena, frame);
            proof {
                cont_of_new(a, frame);
            }
            Moved {
                task: Task::Run { node: child, k: close_k, pos, slots, depth: d },
                meter: m,
                push: None,
            }
        },
        Node::Repeat { child, min, max, lazy } => Moved {
            task: Task::Iterate { node, count: 0, k, pos, slots, depth: d },
            meter: m,
            push: None,
        },
        Node::Atomic(child) => {
            if goes_on {
                let mark = arena.len();
                let stop_k = add_frame(arena, Frame::Stop);
                proof {
                    cont_of_new(a, Frame::Stop);
                    cont_of_begins(a, arena@, k as int);
                }
                Moved {
                    task: Task::Run { node: child, k: stop_k, pos, slots, depth: d },
                    meter: m,
                    push: Some(Handler::Atomic { k, pos, depth: d, mark }),
                }
            } else {
                proof {
                    assert(run_spec(env@, child, Cont::Stop, pos, slots@, d as nat, m) == limit_hit(
                        m,
                    ));
                }
                Moved { task: Task::Done(Outcome::LimitHit), meter: m, push: None }
            }
        },
        Node::Look { child, behind, negate, width, at } => {
            if behind && pos < width {
                if negate {
                    Moved { task: Task::Resume { k, pos, slots, depth: d }, meter: m, push: None }
                } else {
                    Moved { task: Task::Done(Outcome::Failed), meter: m, push: None }
                }
            } else {
                let from = if behind {
                    pos - width
                } else {
                    pos
                };
                let frame = if behind {
                    Frame::StopAt(pos)
                } else {
                    Frame::Stop
                };
                let ghost stop = if behind {
                    Cont::StopAt(pos)
                } else {
                    Cont::Stop
                };
                if goes_on {
                    let mark = arena.len();
                    let stop_k = add_frame(arena, frame);
                    proof {
                        cont_of_new(a, frame);
                        cont_of_begins(a, arena@, k as int);
                    }
                    let kept = copy_slots(&slots);
                    Moved {
                        task: Task::Run { node: child, k: stop_k, pos: from, slots, depth: d },
                        meter: m,
                        push: Some(
                            Handler::Look { k, pos, floor: from, slots: kept, depth: d, negate, mark },
                        ),
                    }
                } else {
                    proof {
                        assert(run_spec(env@, child, stop, from, slots@, d as nat, m) == limit_hit(
                            m,
                        ));
                    }
                    Moved { task: Task::Done(Outcome::LimitHit), meter: m, push: None }
                }
            }
        },
        Node::Mark(i) => {
            let mut marked = slots;
            marked.mark = Some(i);
            Moved { task: Task::Resume { k, pos, slots: marked, depth: d }, meter: m, push: None }
        },
        _ => match probe(env, node, pos, &slots.caps) {
            Probe::Advance(next) => {
                proof {
                    cont_ok_later(env.prog@, kc, pos, next);
                }
                Moved { task: Task::Resume { k, pos: next, slots, depth: d }, meter: m, push: None }
            },
            Probe::Reject => Moved { task: Task::Done(Outcome::Failed), meter: m, push: None },
            Probe::NeedMore => {
                let out = run_out(&env.ctx, pos, m);
                Moved { task: Task::Done(out.out), meter: out.meter, push: None }
            },
        },
    }
}

/// The move that a handler makes of a result.
pub fn done_move(env: &Env, arena: &Vec<Frame>, h: Handler, out: Outcome, meter: Meter) -> (m: Moved)
    requires
        env.wf(),
        links_ok(arena@),
        handler_ok(env, arena@, h),
        task_ok(env, arena@, Task::Done(out), h.floor()),
    ensures
        m.push is None,
        m.meter == meter,
        eval(env@, arena@, m.task, m.meter) == handle(env@, arena@, h, StepV { out: out@, meter }),
        task_ok(env, arena@, m.task, h.pos()),
        steps_left(m.task, m.meter) <= meter.steps,
        steps_left(m.task, m.meter) == meter.steps ==> task_weight(m.task) < h.weight(),
{
    let ghost r = StepV { out: out@, meter };
    let task = match h {
        Handler::OrRun { node, k, pos, slots, depth, mark } => match out {
            Outcome::Failed => if depth > 0 && meter.steps > 0 {
                Task::Run { node, k, pos, slots, depth }
            } else {
                proof {
                    assert(run_spec(
                        env@,
                        node,
                        cont_of(arena@, k as int),
                        pos,
                        slots@,
                        depth as nat,
                        meter,
                    ) == limit_hit(meter));
                }
                Task::Done(Outcome::LimitHit)
            },
            other => Task::Done(other),
        },
        Handler::OrResume { k, pos, slots, depth, mark } => match out {
            Outcome::Failed => Task::Resume { k, pos, slots, depth },
            other => Task::Done(other),
        },
        Handler::Atomic { k, pos, depth, mark } => match out {
            Outcome::Matched { end, slots } => {
                proof {
                    cont_ok_later(env.prog@, cont_of(arena@, k as int), pos, end);
                }
                Task::Resume { k, pos: end, slots, depth }
            },
            other => Task::Done(other),
        },
        Handler::Look { k, pos, floor, slots, depth, negate, mark } => match out {
            Outcome::Matched { end, slots: inner } => if negate {
                Task::Done(Outcome::Failed)
            } else {
                Task::Resume { k, pos, slots: inner, depth }
            },
            Outcome::Failed => if negate {
                Task::Resume { k, pos, slots, depth }
            } else {
                Task::Done(Outcome::Failed)
            },
            other => Task::Done(other),
        },
    };
    Moved { task, meter, push: None }
}

/// A handler that is in order in one arena is in order in another that
/// agrees with it up to the handler's mark.
pub proof fn handler_ok_same(env: &Env, a: Seq<Frame>, b: Seq<Frame>, h: Handler)
    requires
        handler_ok(env, a, h),
        h.spec_mark() <= b.len(),
        begins(a, b) || begins(b, a),
    ensures
        handler_ok(env, b, h),
{
    if begins(a, b) {
        cont_of_begins(a, b, h.k() as int);
    } else {
        cont_of_begins(b, a, h.k() as int);
    }
}

/// A stack that is in order in one arena is in order in another that
/// agrees with it up to the marks of the handlers.
pub proof fn stack_ok_same(env: &Env, a: Seq<Frame>, b: Seq<Frame>, stack: Seq<Handler>, base: usize)
    requires
        stack_ok(env, a, stack, base),
        begins(a, b) || begins(b, a),
        forall|i: int| 0 <= i < stack.len() ==> (#[trigger] stack[i]).spec_mark() <= b.len(),
    ensures
        stack_ok(env, b, stack, base),
{
    reveal(stack_ok);
    assert forall|i: int| 0 <= i < stack.len() implies handler_ok(env, b, #[trigger] stack[i]) by {
        handler_ok_same(env, a, b, stack[i]);
    }
}

/// In a stack that is in order no handler has a mark beyond that of the
/// top one.
pub proof fn marks_below_top(env: &Env, arena: Seq<Frame>, stack: Seq<Handler>, base: usize, i: int)
    requires
        stack_ok(env, arena, stack, base),
        0 <= i < stack.len(),
    ensures
        stack[i].spec_mark() <= stack.last().spec_mark(),
    decreases stack.len() - i,
{
    reveal(stack_ok);
    if i < stack.len() - 1 {
        marks_below_top(env, arena, stack, base, i + 1);
        assert(stack[i + 1 - 1].spec_mark() <= stack[i + 1].spec_mark());
    }
}

/// A stack with one more handler weighs as much more as the handler.
pub proof fn weight_of_push(stack: Seq<Handler>, h: Handler)
    ensures
        stack_weight(stack.push(h)) == stack_weight(stack) + h.weight(),
{
    assert(stack.push(h).drop_last() =~= stack);
}

/// A stack in order stays in order when a handler in order is put on it.
pub proof fn stack_ok_push(env: &Env, arena: Seq<Frame>, stack: Seq<Handler>, h: Handler, base: usize)
    requires
        stack_ok(env, arena, stack, base),
        handler_ok(env, arena, h),
        top_floor(stack, base) <= h.pos(),
        stack.len() > 0 ==> stack.last().spec_mark() <= h.spec_mark(),
    ensures
        stack_ok(env, arena, stack.push(h), base),
{
    reveal(stack_ok);
    let after = stack.push(h);
    assert forall|i: int| 0 <= i < after.len() implies {
        &&& handler_ok(env, arena, #[trigger] after[i])
        &&& top_floor(after.subrange(0, i), base) <= after[i].pos()
        &&& (i > 0 ==> after[i - 1].spec_mark() <= after[i].spec_mark())
    } by {
        if i < stack.len() {
            assert(after[i] == stack[i]);
            assert(after.subrange(0, i) =~= stack.subrange(0, i));
            if i > 0 {
                assert(after[i - 1] == stack[i - 1]);
            }
        } else {
            assert(after.subrange(0, i) =~= stack);
        }
    }
}

/// A stack in order without its top handler is in order, and so is the
/// top handler, which stands at or after the floor of the rest.
pub proof fn stack_ok_pop(env: &Env, arena: Seq<Frame>, stack: Seq<Handler>, base: usize)
    requires
        stack_ok(env, arena, stack, base),
        stack.len() > 0,
    ensures
        stack_ok(env, arena, stack.drop_last(), base),
        handler_ok(env, arena, stack.last()),
        top_floor(stack.drop_last(), base) <= stack.last().pos(),
{
    reveal(stack_ok);
    let rest = stack.drop_last();
    let top = stack.len() - 1;
    assert(handler_ok(env, arena, stack[top]));
    assert(stack.subrange(0, top) =~= rest);
    assert forall|i: int| 0 <= i < rest.len() implies {
        &&& handler_ok(env, arena, #[trigger] rest[i])
        &&& top_floor(rest.subrange(0, i), base) <= rest[i].pos()
        &&& (i > 0 ==> rest[i - 1].spec_mark() <= rest[i].spec_mark())
    } by {
        assert(rest[i] == stack[i]);
        assert(handler_ok(env, arena, stack[i]));
        assert(rest.subrange(0, i) =~= stack.subrange(0, i));
        if i > 0 {
            assert(rest[i - 1] == stack[i - 1]);
        }
    }
}

/// Every handler of a stack in order is in order and was made no later
/// than the top one.
pub proof fn stack_ok_each(env: &Env, arena: Seq<Frame>, stack: Seq<Handler>, base: usize)
    requires
        stack_ok(env, arena, stack, base),
    ensures
        forall|i: int|
            0 <= i < stack.len() ==> handler_ok(env, arena, #[trigger] stack[i])
                && stack[i].spec_mark() <= stack.last().spec_mark(),
{
    assert forall|i: int| 0 <= i < stack.len() implies handler_ok(env, arena, #[trigger] stack[i])
        && stack[i].spec_mark() <= stack.last().spec_mark() by {
        marks_below_top(env, arena, stack, base, i);
        reveal(stack_ok);
    }
}

/// Whether the machine is in order: the arena, the task and the stack.
pub open spec fn in_order(
    env: &Env,
    arena: Seq<Frame>,
    stack: Seq<Handler>,
    task: Task,
    base: usize,
) -> bool {
    &&& env.wf()
    &&& links_ok(arena)
    &&& task_ok(env, arena, task, top_floor(stack, base))
    &&& stack_ok(env, arena, stack, base)
}

/// What the machine comes to from where it stands.
pub open spec fn outlook(env: &Env, arena: Seq<Frame>, stack: Seq<Handler>, task: Task, meter: Meter) -> StepV {
    finish(env@, arena, stack, eval(env@, arena, task, meter))
}

/// Whether the machine is nearer to its end at the second state than at
/// the first.
pub open spec fn nearer(
    stack0: Seq<Handler>,
    task0: Task,
    meter0: Meter,
    stack1: Seq<Handler>,
    task1: Task,
    meter1: Meter,
) -> bool {
    steps_left(task1, meter1) < steps_left(task0, meter0) || (steps_left(task1, meter1)
        == steps_left(task0, meter0) && stack_weight(stack1) + task_weight(task1) < stack_weight(
        stack0,
    ) + task_weight(task0))
}

/// Puts the handler of a move on the stack, if the move left one.
fn settle(
    env: &Env,
    arena: &Vec<Frame>,
    stack: &mut Vec<Handler>,
    moved: Moved,
    Ghost(a): Ghost<Seq<Frame>>,
    Ghost(t0): Ghost<Task>,
    Ghost(m0): Ghost<Meter>,
    Ghost(base): Ghost<usize>,
) -> (next: (Task, Meter))
    requires
        in_order(env, a, old(stack)@, t0, base),
        !(t0 is Done),
        links_ok(arena@),
        moved_ok(env, a, arena@, t0, m0, moved),
    ensures
        in_order(env, arena@, final(stack)@, next.0, base),
        outlook(env, arena@, final(stack)@, next.0, next.1) == outlook(env, a, old(stack)@, t0, m0),
        nearer(old(stack)@, t0, m0, final(stack)@, next.0, next.1),
        notes_kept(env, m0, next.1),
{
    let ghost before = stack@;
    let ghost b = arena@;
    let ghost r0 = eval(env@, a, t0, m0);
    proof {
        stack_ok_each(env, a, before, base);
        finish_begins(env@, a, b, before, r0);
        stack_ok_same(env, a, b, before, base);
    }
    let Moved { task, meter, push } = moved;
    match push {
        Some(h) => {
            proof {
                weight_of_push(before, h);
                assert(before.push(h).drop_last() =~= before);
                stack_ok_push(env, b, before, h, base);
            }
            stack.push(h);
        },
        None => {},
    }
    (task, meter)
}

/// Takes the top handler off the stack and has it make its move of the
/// result `out`.
fn unwind(
    env: &Env,
    arena: &mut Vec<Frame>,
    stack: &mut Vec<Handler>,
    out: Outcome,
    meter: Meter,
    Ghost(base): Ghost<usize>,
) -> (next: (Task, Meter))
    requires
        in_order(env, old(arena)@, old(stack)@, Task::Done(out), base),
        old(stack)@.len() > 0,
    ensures
        in_order(env, final(arena)@, final(stack)@, next.0, base),
        outlook(env, final(arena)@, final(stack)@, next.0, next.1) == outlook(
            env,
            old(arena)@,
            old(stack)@,
            Task::Done(out),
            meter,
        ),
        nearer(old(stack)@, Task::Done(out), meter, final(stack)@, next.0, next.1),
        next.1 == meter,
{
    let ghost a = arena@;
    let ghost before = stack@;
    let ghost r0 = StepV { out: out@, meter };
    proof {
        stack_ok_pop(env, a, before, base);
        stack_ok_each(env, a, before, base);
    }
    let h = match stack.pop() {
        Some(h) => h,
        None => Handler::Atomic { k: 0, pos: 0, depth: 0, mark: 0 },
    };
    let ghost rest = stack@;
    proof {
        assert(rest =~= before.drop_last());
        assert(h == before.last());
        assert forall|i: int| 0 <= i < rest.len() implies (#[trigger] rest[i]).spec_mark()
            <= h.spec_mark() && rest[i].k() < h.spec_mark() by {
            assert(rest[i] == before[i]);
        }
    }
    arena.truncate(h.mark());
    let ghost b = arena@;
    proof {
        assert(begins(b, a));
        assert(links_ok(b));
        stack_ok_same(env, a, b, rest, base);
        handler_ok_same(env, a, b, h);
        cont_of_begins(b, a, h.k() as int);
        finish_begins(env@, b, a, rest, handle(env@, a, h, r0));
        weight_of_push(rest, h);
        assert(rest.push(h) =~= before);
    }
    let moved = done_move(env, arena, h, out, meter);
    (moved.task, moved.meter)
}

/// Runs node `node` at `pos` and accepts when it is done.
pub fn run_machine(env: &Env, node: usize, pos: usize, slots: Slots, depth: usize, meter: Meter) -> (r:
    Step)
    requires
        env.wf(),
        node < env.prog@.nodes.len(),
        pos <= env.subject@.len(),
        slots_ok(slots@, env.prog@, env.subject@.len() as int),
    ensures
        r@ == run_spec(env@, node, Cont::Accept, pos, slots@, depth as nat, meter),
        r.out matches Outcome::Matched { end, slots: found } ==> pos <= end <= env.subject@.len()
            && slots_ok(found@, env.prog@, env.subject@.len() as int),
        notes_kept(env, meter, r.meter),
{
    let ghost goal = run_spec(env@, node, Cont::Accept, pos, slots@, depth as nat, meter);
    let mut arena: Vec<Frame> = Vec::new();
    arena.push(Frame::Accept);
    let mut stack: Vec<Handler> = Vec::new();
    let mut task = Task::Run { node, k: 0, pos, slots, depth };
    let mut cur = meter;
    proof {
        assert(cont_of(arena@, 0) == Cont::Accept);
        assert(stack@.len() == 0);
        reveal(stack_ok);
    }
    loop
        invariant
            goal == run_spec(env@, node, Cont::Accept, pos, slots@, depth as nat, meter),
            goal == outlook(env, arena@, stack@, task, cur),
            in_order(env, arena@, stack@, task, pos),
            notes_kept(env, meter, cur),
            pos <= env.subject@.len(),
        decreases steps_left(task, cur), stack_weight(stack@) + task_weight(task),
    {
        let ghost a = arena@;
        let ghost t0 = task;
        let next = match task {
            Task::Done(out) => {
                if stack.len() == 0 {
                    return Step { out, meter: cur };
                }
                unwind(env, &mut arena, &mut stack, out, cur, Ghost(pos))
            },
            Task::Run { node: n, k, pos: p, slots: s, depth: d } => {
                let moved = run_move(env, &mut arena, n, k, p, s, d, cur);
                settle(env, &arena, &mut stack, moved, Ghost(a), Ghost(t0), Ghost(cur), Ghost(pos))
            },
            Task::Resume { k, pos: p, slots: s, depth: d } => {
                let moved = resume_move(env, &arena, k, p, s, d, cur);
                settle(env, &arena, &mut stack, moved, Ghost(a), Ghost(t0), Ghost(cur), Ghost(pos))
            },
            Task::Iterate { node: n, count, k, pos: p, slots: s, depth: d } => {
                let moved = iterate_move(env, &mut arena, n, count, k, p, s, d, cur);
                settle(env, &arena, &mut stack, moved, Ghost(a), Ghost(t0), Ghost(cur), Ghost(pos))
            },
        };
        task = next.0;
        cur = next.1;
    }
}

} // verus!
