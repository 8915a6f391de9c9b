//! What it means for a program to match at one position.
//!
//! The meaning is given by three mutually recursive functions over the node
//! table. `run_spec` matches one node and then whatever the continuation
//! holds; `resume_spec` takes the next frame off the continuation;
//! `iterate_spec` stands between two rounds of a repetition. Alternatives are
//! tried left to right, a greedy repetition tries another round before it
//! tries to leave, a lazy one the other way round. Two budgets bound the
//! work: `depth` falls by one with every nested call, and the meter's `steps`
//! fall by one with every node that is entered. The code that computes all
//! this without recursion is the machine of the module `machine`; here stand
//! only the parts of it that look at the subject.

use crate::bytes::{
    newline_at, newline_before, same_folded, spec_newline_at, spec_newline_before,
    spec_same_folded, spec_word_boundary, word_boundary, Newline,
};
use crate::program::{Node, Program, ProgramV, UNSET};
use vstd::prelude::*;

verus! {

/// How a match attempt treats the end of the subject.
#[derive(Clone, Copy, Debug, PartialEq, Eq, Structural)]
pub enum PartialMode {
    /// The subject is complete.
    Off,
    /// A complete match is preferred; a partial one is reported if there is
    /// no complete one.
    Soft,
    /// Running out of subject ends the search at once with a partial match.
    Hard,
}

/// The settings of one attempt to match at one position.
#[derive(Clone, Copy, Debug)]
pub struct Ctx {
    /// The offset at which the search began.
    pub start_offset: usize,
    /// The offset at which this attempt began.
    pub attempt: usize,
    pub not_bol: bool,
    pub not_eol: bool,
    pub not_empty: bool,
    pub not_empty_at_start: bool,
    pub partial: PartialMode,
    pub newline: Newline,
}

/// What an attempt works on.
pub struct Env<'a> {
    pub prog: &'a Program,
    pub subject: &'a [u8],
    pub ctx: Ctx,
}

/// An `Env` with the subject as a sequence of bytes.
pub struct EnvV {
    pub prog: ProgramV,
    pub subject: Seq<u8>,
    pub ctx: Ctx,
}

impl<'a> View for Env<'a> {
    type V = EnvV;

    open spec fn view(&self) -> EnvV {
        EnvV { prog: self.prog@, subject: self.subject@, ctx: self.ctx }
    }
}

impl<'a> Env<'a> {
    pub open spec fn wf(&self) -> bool {
        self.prog.wf() && self.ctx.attempt <= self.subject@.len()
    }
}

/// The remaining step budget, and where the subject first ran out.
#[derive(Clone, Copy, Debug)]
pub struct Meter {
    pub steps: usize,
    /// The start of the first attempt that needed bytes beyond the end of
    /// the subject after it had consumed some.
    pub hit_end: Option<usize>,
}

impl Meter {
    pub open spec fn spec_tick(self) -> Meter {
        Meter { steps: (self.steps - 1) as usize, hit_end: self.hit_end }
    }

    #[verifier::when_used_as_spec(spec_tick)]
    pub fn tick(self) -> (m: Meter)
        requires
            self.steps > 0,
        ensures
            m == self.spec_tick(),
    {
        Meter { steps: self.steps - 1, hit_end: self.hit_end }
    }

    pub open spec fn spec_note(self, attempt: usize) -> Meter {
        Meter {
            steps: self.steps,
            hit_end: if self.hit_end is Some {
                self.hit_end
            } else {
                Some(attempt)
            },
        }
    }

    #[verifier::when_used_as_spec(spec_note)]
    pub fn note(self, attempt: usize) -> (m: Meter)
        ensures
            m == self.spec_note(attempt),
    {
        Meter {
            steps: self.steps,
            hit_end: if self.hit_end.is_some() {
                self.hit_end
            } else {
                Some(attempt)
            },
        }
    }
}

/// The offsets captured so far and the last mark passed.
#[derive(Debug)]
pub struct Slots {
    pub caps: Vec<usize>,
    pub mark: Option<usize>,
}

pub struct SlotsV {
    pub caps: Seq<usize>,
    pub mark: Option<usize>,
}

impl View for Slots {
    type V = SlotsV;

    open spec fn view(&self) -> SlotsV {
        SlotsV { caps: self.caps@, mark: self.mark }
    }
}

/// Whether `caps` holds a pair of offsets for group 0 and each of `groups`
/// groups, every pair either unset or a range within `len` bytes.
pub open spec fn caps_ok(caps: Seq<usize>, groups: int, len: int) -> bool {
    &&& caps.len() == 2 * (groups + 1)
    &&& forall|g: int|
        0 <= g <= groups ==> {
            let start = #[trigger] caps[2 * g];
            let end = caps[2 * g + 1];
            if start == UNSET {
                end == UNSET
            } else {
                start <= end <= len
            }
        }
}

/// `caps` with the pair of group `index` set to `start..end`.
pub open spec fn set_group(caps: Seq<usize>, index: usize, start: usize, end: usize) -> Seq<
    usize,
> {
    caps.update(2 * index, start).update(2 * index + 1, end)
}

/// Whether the slots hold offsets in order (see `caps_ok`) and a mark, if
/// any, that is a string of the program.
pub open spec fn slots_ok(slots: SlotsV, prog: ProgramV, len: int) -> bool {
    &&& caps_ok(slots.caps, prog.group_count as int, len)
    &&& slots.mark matches Some(m) ==> m < prog.strings.len()
}

/// How an attempt, or a part of one, ended.
#[derive(Debug)]
pub enum Outcome {
    Matched { end: usize, slots: Slots },
    Failed,
    /// A budget ran out.
    LimitHit,
    /// The subject ran out under `PartialMode::Hard`.
    Partial,
}

pub enum OutcomeV {
    Matched { end: usize, slots: SlotsV },
    Failed,
    LimitHit,
    Partial,
}

impl View for Outcome {
    type V = OutcomeV;

    open spec fn view(&self) -> OutcomeV {
        match self {
            Outcome::Matched { end, slots } => OutcomeV::Matched { end: *end, slots: slots@ },
            Outcome::Failed => OutcomeV::Failed,
            Outcome::LimitHit => OutcomeV::LimitHit,
            Outcome::Partial => OutcomeV::Partial,
        }
    }
}

/// An outcome together with the meter as the work left it.
#[derive(Debug)]
pub struct Step {
    pub out: Outcome,
    pub meter: Meter,
}

pub struct StepV {
    pub out: OutcomeV,
    pub meter: Meter,
}

impl View for Step {
    type V = StepV;

    open spec fn view(&self) -> StepV {
        StepV { out: self.out@, meter: self.meter }
    }
}

/// What is left to match once the current node is done.
pub enum Cont<'a> {
    /// Nothing: the whole pattern has matched, unless the match is empty
    /// and the settings refuse that.
    Accept,
    /// Nothing: an atomic group or a lookahead has matched.
    Stop,
    /// Nothing: a lookbehind has matched if it ends at this offset.
    StopAt(usize),
    /// This node, then `next`.
    Then { node: usize, next: &'a Cont<'a> },
    /// The end of group `index`, which began at `start`.
    Close { index: usize, start: usize, next: &'a Cont<'a> },
    /// The end of one round of the repetition `node`, which began at `entry`
    /// and was round number `count`.
    Loop { node: usize, count: usize, entry: usize, next: &'a Cont<'a> },
}

/// What a node that looks at the subject without nesting makes of a position.
#[derive(Clone, Copy, Debug, PartialEq, Eq, Structural)]
pub enum Probe {
    /// It matches, and the next position is this.
    Advance(usize),
    /// It does not match.
    Reject,
    /// It could match only if the subject went on.
    NeedMore,
}

/// Whether the `len` bytes at `a` and at `b` are the same text.
pub open spec fn same_text(s: Seq<u8>, a: int, b: int, len: int, caseless: bool) -> bool {
    forall|i: int|
        0 <= i < len ==> if caseless {
            spec_same_folded(#[trigger] s[a + i], s[b + i])
        } else {
            s[a + i] == s[b + i]
        }
}

/// Whether `^` holds at `pos`.
pub open spec fn line_start(s: Seq<u8>, ctx: Ctx, pos: usize, multiline: bool) -> bool {
    if pos == 0 {
        !ctx.not_bol
    } else {
        multiline && pos < s.len() && spec_newline_before(s, pos, ctx.newline)
    }
}

/// Whether `$` holds at `pos`.
pub open spec fn line_end(s: Seq<u8>, ctx: Ctx, pos: usize, multiline: bool, end_only: bool) -> bool {
    let here = spec_newline_at(s, pos, ctx.newline);
    if multiline {
        (pos == s.len() && !ctx.not_eol) || here > 0
    } else if ctx.not_eol {
        false
    } else {
        pos == s.len() || (!end_only && here > 0 && pos + here == s.len())
    }
}

/// What a back reference to the range `start..end` makes of `pos`.
pub open spec fn probe_backref(s: Seq<u8>, pos: usize, start: usize, end: usize, caseless: bool) -> Probe {
    if start == UNSET {
        Probe::Reject
    } else {
        let len = end - start;
        let left = s.len() - pos;
        if len <= left {
            if same_text(s, start as int, pos as int, len, caseless) {
                Probe::Advance((pos + len) as usize)
            } else {
                Probe::Reject
            }
        } else if same_text(s, start as int, pos as int, left, caseless) {
            Probe::NeedMore
        } else {
            Probe::Reject
        }
    }
}

/// A zero-width test as a probe.
pub open spec fn holds_at(pos: usize, holds: bool) -> Probe {
    if holds {
        Probe::Advance(pos)
    } else {
        Probe::Reject
    }
}

/// A test of the byte at `pos` as a probe.
pub open spec fn byte_at(s: Seq<u8>, pos: usize, accepts: spec_fn(u8) -> bool) -> Probe {
    if pos >= s.len() {
        Probe::NeedMore
    } else if accepts(s[pos as int]) {
        Probe::Advance((pos + 1) as usize)
    } else {
        Probe::Reject
    }
}

/// What a node without children makes of a position.
pub open spec fn probe_spec(env: EnvV, n: Node, pos: usize, caps: Seq<usize>) -> Probe {
    let s = env.subject;
    let ctx = env.ctx;
    match n {
        Node::Empty => Probe::Advance(pos),
        Node::Byte(b) => byte_at(s, pos, |x: u8| x == b),
        Node::ByteNoCase(b) => byte_at(s, pos, |x: u8| spec_same_folded(x, b)),
        Node::Class(i) => byte_at(s, pos, |x: u8| env.prog.sets[i as int][x as int]),
        Node::AnyByte => byte_at(s, pos, |x: u8| true),
        Node::AnyExceptNewline => if pos >= s.len() {
            Probe::NeedMore
        } else if spec_newline_at(s, pos, ctx.newline) > 0 {
            Probe::Reject
        } else {
            Probe::Advance((pos + 1) as usize)
        },
        Node::LineStart { multiline } => holds_at(pos, line_start(s, ctx, pos, multiline)),
        Node::LineEnd { multiline, end_only } => holds_at(
            pos,
            line_end(s, ctx, pos, multiline, end_only),
        ),
        Node::SubjectStart => holds_at(pos, pos == 0),
        Node::SubjectEnd => holds_at(pos, pos == s.len()),
        Node::SubjectEndOptNewline => {
            let here = spec_newline_at(s, pos, ctx.newline);
            holds_at(pos, pos == s.len() || (here > 0 && pos + here == s.len()))
        },
        Node::SearchStart => holds_at(pos, pos == ctx.start_offset),
        Node::WordBoundary { negate } => holds_at(pos, spec_word_boundary(s, pos) != negate),
        Node::Backref { group, caseless, at } => probe_backref(
            s,
            pos,
            caps[2 * group],
            caps[2 * group + 1],
            caseless,
        ),
        _ => Probe::Reject,
    }
}

/// Whether the settings refuse a match that ends at `pos` for being empty.
pub open spec fn refuses_empty(ctx: Ctx, pos: usize) -> bool {
    pos == ctx.attempt && (ctx.not_empty || (ctx.not_empty_at_start && ctx.attempt
        == ctx.start_offset))
}

pub open spec fn failed(meter: Meter) -> StepV {
    StepV { out: OutcomeV::Failed, meter }
}

pub open spec fn limit_hit(meter: Meter) -> StepV {
    StepV { out: OutcomeV::LimitHit, meter }
}

pub open spec fn matched(end: usize, slots: SlotsV, meter: Meter) -> StepV {
    StepV { out: OutcomeV::Matched { end, slots }, meter }
}

/// The outcome of a node that needs bytes beyond the end of the subject.
pub open spec fn out_of_subject(ctx: Ctx, pos: usize, meter: Meter) -> StepV {
    if ctx.partial == PartialMode::Off || pos <= ctx.attempt {
        failed(meter)
    } else if ctx.partial == PartialMode::Hard {
        StepV { out: OutcomeV::Partial, meter: meter.note(ctx.attempt) }
    } else {
        failed(meter.note(ctx.attempt))
    }
}

/// The outcome of matching node `node` at `pos` and then `k`.
pub open spec fn run_spec(
    env: EnvV,
    node: usize,
    k: Cont,
    pos: usize,
    slots: SlotsV,
    depth: nat,
    meter: Meter,
) -> StepV
    decreases depth,
{
    if depth == 0 || meter.steps == 0 {
        limit_hit(meter)
    } else {
        let d = (depth - 1) as nat;
        let m = meter.tick();
        let n = env.prog.nodes[node as int];
        match n {
            Node::Concat(a, b) => run_spec(env, a, Cont::Then { node: b, next: &k }, pos, slots, d, m),
            Node::Alt(a, b) => {
                let first = run_spec(env, a, k, pos, slots, d, m);
                if first.out is Failed {
                    run_spec(env, b, k, pos, slots, d, first.meter)
                } else {
                    first
                }
            },
            Node::Group { child, index } => run_spec(
                env,
                child,
                Cont::Close { index, start: pos, next: &k },
                pos,
                slots,
                d,
                m,
            ),
            Node::Repeat { child, min, max, lazy } => iterate_spec(env, node, 0, k, pos, slots, d, m),
            Node::Atomic(child) => {
                let inner = run_spec(env, child, Cont::Stop, pos, slots, d, m);
                match inner.out {
                    OutcomeV::Matched { end, slots: inner_slots } => resume_spec(
                        env,
                        k,
                        end,
                        inner_slots,
                        d,
                        inner.meter,
                    ),
                    _ => inner,
                }
            },
            Node::Look { child, behind, negate, width, at } => {
                if behind && pos < width {
                    if negate {
                        resume_spec(env, k, pos, slots, d, m)
                    } else {
                        failed(m)
                    }
                } else {
                    let from = if behind {
                        (pos - width) as usize
                    } else {
                        pos
                    };
                    let stop = if behind {
                        Cont::StopAt(pos)
                    } else {
                        Cont::Stop
                    };
                    let inner = run_spec(env, child, stop, from, slots, d, m);
                    match inner.out {
                        OutcomeV::Matched { end, slots: inner_slots } => if negate {
                            failed(inner.meter)
                        } else {
                            resume_spec(env, k, pos, inner_slots, d, inner.meter)
                        },
                        OutcomeV::Failed => if negate {
                            resume_spec(env, k, pos, slots, d, inner.meter)
                        } else {
                            inner
                        },
                        _ => inner,
                    }
                }
            },
            Node::Mark(i) => resume_spec(
                env,
                k,
                pos,
                SlotsV { caps: slots.caps, mark: Some(i) },
                d,
                m,
            ),
            _ => match probe_spec(env, n, pos, slots.caps) {
                Probe::Advance(next) => resume_spec(env, k, next, slots, d, m),
                Probe::Reject => failed(m),
                Probe::NeedMore => out_of_subject(env.ctx, pos, m),
            },
        }
    }
}

/// The outcome of matching `k` at `pos`.
pub open spec fn resume_spec(
    env: EnvV,
    k: Cont,
    pos: usize,
    slots: SlotsV,
    depth: nat,
    meter: Meter,
) -> StepV
    decreases depth,
{
    match k {
        Cont::Accept => if refuses_empty(env.ctx, pos) {
            failed(meter)
        } else {
            matched(pos, slots, meter)
        },
        Cont::Stop => matched(pos, slots, meter),
        Cont::StopAt(target) => if pos == target {
            matched(pos, slots, meter)
        } else {
            failed(meter)
        },
        Cont::Then { node, next } => if depth == 0 {
            limit_hit(meter)
        } else {
            run_spec(env, node, *next, pos, slots, (depth - 1) as nat, meter)
        },
        Cont::Close { index, start, next } => if depth == 0 {
            limit_hit(meter)
        } else {
            resume_spec(
                env,
                *next,
                pos,
                SlotsV { caps: set_group(slots.caps, index, start, pos), mark: slots.mark },
                (depth - 1) as nat,
                meter,
            )
        },
        Cont::Loop { node, count, entry, next } => if depth == 0 {
            limit_hit(meter)
        } else if pos == entry {
            resume_spec(env, *next, pos, slots, (depth - 1) as nat, meter)
        } else {
            iterate_spec(env, node, count, *next, pos, slots, (depth - 1) as nat, meter)
        },
    }
}

/// The outcome of the repetition `node` at `pos` after `count` rounds, and
/// then `k`. A round that consumed nothing ends the repetition.
pub open spec fn iterate_spec(
    env: EnvV,
    node: usize,
    count: usize,
    k: Cont,
    pos: usize,
    slots: SlotsV,
    depth: nat,
    meter: Meter,
) -> StepV
    decreases depth,
{
    if depth == 0 {
        limit_hit(meter)
    } else {
        let d = (depth - 1) as nat;
        match env.prog.nodes[node as int] {
            Node::Repeat { child, min, max, lazy } => {
                let again = Cont::Loop { node, count: (count + 1) as usize, entry: pos, next: &k };
                if count < min {
                    run_spec(env, child, again, pos, slots, d, meter)
                } else if count >= max {
                    resume_spec(env, k, pos, slots, d, meter)
                } else if lazy {
                    let leave = resume_spec(env, k, pos, slots, d, meter);
                    if leave.out is Failed {
                        run_spec(env, child, again, pos, slots, d, leave.meter)
                    } else {
                        leave
                    }
                } else {
                    let more = run_spec(env, child, again, pos, slots, d, meter);
                    if more.out is Failed {
                        resume_spec(env, k, pos, slots, d, more.meter)
                    } else {
                        more
                    }
                }
            },
            _ => failed(meter),
        }
    }
}

/// Whether every frame of `k` names what exists in `prog`, and no group or
/// round on it began after `pos`.
pub open spec fn cont_ok(prog: ProgramV, k: Cont, pos: usize) -> bool
    decreases k,
{
    match k {
        Cont::Accept => true,
        Cont::Stop => true,
        Cont::StopAt(target) => true,
        Cont::Then { node, next } => node < prog.nodes.len() && cont_ok(prog, *next, pos),
        Cont::Close { index, start, next } => 1 <= index <= prog.group_count && start <= pos
            && cont_ok(prog, *next, pos),
        Cont::Loop { node, count, entry, next } => node < prog.nodes.len() && cont_ok(
            prog,
            *next,
            pos,
        ),
    }
}

/// A continuation that is in order at one position is in order at every
/// later one.
pub proof fn cont_ok_later(prog: ProgramV, k: Cont, pos: usize, later: usize)
    requires
        cont_ok(prog, k, pos),
        pos <= later,
    ensures
        cont_ok(prog, k, later),
    decreases k,
{
    match k {
        Cont::Then { node, next } => cont_ok_later(prog, *next, pos, later),
        Cont::Close { index, start, next } => cont_ok_later(prog, *next, pos, later),
        Cont::Loop { node, count, entry, next } => cont_ok_later(prog, *next, pos, later),
        _ => {},
    }
}

/// Whether the `len` bytes at `a` and at `b` are the same text.
pub fn text_matches(s: &[u8], a: usize, b: usize, len: usize, caseless: bool) -> (r: bool)
    requires
        a + len <= s@.len(),
        b + len <= s@.len(),
    ensures
        r == same_text(s@, a as int, b as int, len as int, caseless),
{
    let mut i: usize = 0;
    while i < len
        invariant
            i <= len,
            a + len <= s.len(),
            b + len <= s.len(),
            same_text(s@, a as int, b as int, i as int, caseless),
        decreases len - i,
    {
        let x = s[a + i];
        let y = s[b + i];
        let same = if caseless {
            same_folded(x, y)
        } else {
            x == y
        };
        if !same {
            assert(!same_text(s@, a as int, b as int, len as int, caseless)) by {
                let x = s@[a + i];
            }
            return false;
        }
        i += 1;
    }
    true
}

/// A copy of `slots`.
pub fn copy_slots(slots: &Slots) -> (r: Slots)
    ensures
        r@ == slots@,
{
    let mut caps: Vec<usize> = Vec::with_capacity(slots.caps.len());
    let mut i: usize = 0;
    while i < slots.caps.len()
        invariant
            i <= slots.caps.len(),
            caps@ == slots.caps@.subrange(0, i as int),
        decreases slots.caps.len() - i,
    {
        caps.push(slots.caps[i]);
        assert(caps@ =~= slots.caps@.subrange(0, i + 1));
        i += 1;
    }
    assert(caps@ =~= slots.caps@);
    Slots { caps, mark: slots.mark }
}

/// A copy of `slots` in which group `index` spans `start..end`.
pub fn close_group(slots: &Slots, index: usize, start: usize, end: usize) -> (r: Slots)
    requires
        2 * index + 1 < slots.caps.len(),
    ensures
        r@ == (SlotsV { caps: set_group(slots@.caps, index, start, end), mark: slots.mark }),
{
    let mut r = copy_slots(slots);
    r.caps[2 * index] = start;
    r.caps[2 * index + 1] = end;
    r
}

/// Setting a group to a range within the subject keeps the offsets in order.
pub proof fn set_group_ok(caps: Seq<usize>, groups: int, len: int, index: usize, start: usize, end: usize)
    requires
        caps_ok(caps, groups, len),
        index <= groups,
        start <= end <= len,
    ensures
        caps_ok(set_group(caps, index, start, end), groups, len),
{
    let out = set_group(caps, index, start, end);
    assert forall|g: int| 0 <= g <= groups implies {
        let s = #[trigger] out[2 * g];
        let e = out[2 * g + 1];
        if s == UNSET {
            e == UNSET
        } else {
            s <= e <= len
        }
    } by {
        let first = caps.update(2 * index, start);
        if g != index {
            assert(first[2 * g] == caps[2 * g]);
            assert(first[2 * g + 1] == caps[2 * g + 1]);
            assert(out[2 * g] == caps[2 * g]);
            assert(out[2 * g + 1] == caps[2 * g + 1]);
        } else {
            assert(first[2 * g] == start);
            assert(out[2 * g] == start);
            assert(out[2 * g + 1] == end);
        }
    }
}

/// What the node `node`, which has no children, makes of `pos`.
pub fn probe(env: &Env, node: usize, pos: usize, caps: &Vec<usize>) -> (p: Probe)
    requires
        env.wf(),
        node < env.prog.nodes.len(),
        pos <= env.subject@.len(),
        caps_ok(caps@, env.prog.group_count as int, env.subject@.len() as int),
    ensures
        p == probe_spec(env@, env.prog.nodes[node as int], pos, caps@),
        p matches Probe::Advance(next) ==> pos <= next <= env.subject@.len(),
{
    let s = env.subject;
    let ctx = env.ctx;
    let n = env.prog.nodes[node];
    match n {
        Node::Empty => Probe::Advance(pos),
        Node::Byte(b) => if pos >= s.len() {
            Probe::NeedMore
        } else if s[pos] == b {
            Probe::Advance(pos + 1)
        } else {
            Probe::Reject
        },
        Node::ByteNoCase(b) => if pos >= s.len() {
            Probe::NeedMore
        } else if same_folded(s[pos], b) {
            Probe::Advance(pos + 1)
        } else {
            Probe::Reject
        },
        Node::Class(i) => if pos >= s.len() {
            Probe::NeedMore
        } else if env.prog.sets[i][s[pos] as usize] {
            Probe::Advance(pos + 1)
        } else {
            Probe::Reject
        },
        Node::AnyByte => if pos >= s.len() {
            Probe::NeedMore
        } else {
            Probe::Advance(pos + 1)
        },
        Node::AnyExceptNewline => if pos >= s.len() {
            Probe::NeedMore
        } else if newline_at(s, pos, ctx.newline) > 0 {
            Probe::Reject
        } else {
            Probe::Advance(pos + 1)
        },
        Node::LineStart { multiline } => {
            let holds = if pos == 0 {
                !ctx.not_bol
            } else {
                multiline && pos < s.len() && newline_before(s, pos, ctx.newline)
            };
            if holds {
                Probe::Advance(pos)
            } else {
                Probe::Reject
            }
        },
        Node::LineEnd { multiline, end_only } => {
            let here = newline_at(s, pos, ctx.newline);
            let holds = if multiline {
                (pos == s.len() && !ctx.not_eol) || here > 0
            } else if ctx.not_eol {
                false
            } else {
                pos == s.len() || (!end_only && here > 0 && pos + here == s.len())
            };
            if holds {
                Probe::Advance(pos)
            } else {
                Probe::Reject
            }
        },
        Node::SubjectStart => if pos == 0 {
            Probe::Advance(pos)
        } else {
            Probe::Reject
        },
        Node::SubjectEnd => if pos == s.len() {
            Probe::Advance(pos)
        } else {
            Probe::Reject
        },
        Node::SubjectEndOptNewline => {
            let here = newline_at(s, pos, ctx.newline);
            if pos == s.len() || (here > 0 && pos + here == s.len()) {
                Probe::Advance(pos)
            } else {
                Probe::Reject
            }
        },
        Node::SearchStart => if pos == ctx.start_offset {
            Probe::Advance(pos)
        } else {
            Probe::Reject
        },
        Node::WordBoundary { negate } => if word_boundary(s, pos) != negate {
            Probe::Advance(pos)
        } else {
            Probe::Reject
        },
        Node::Backref { group, caseless, at } => {
            assert(caps@[2 * (group as int)] == caps@[2 * group]);
            let start = caps[2 * group];
            let end = caps[2 * group + 1];
            if start == UNSET {
                Probe::Reject
            } else {
                let len = end - start;
                let left = s.len() - pos;
                if len <= left {
                    if text_matches(s, start, pos, len, caseless) {
                        Probe::Advance(pos + len)
                    } else {
                        Probe::Reject
                    }
                } else if left <= s.len() - start && text_matches(s, start, pos, left, caseless) {
                    Probe::NeedMore
                } else {
                    Probe::Reject
                }
            }
        },
        _ => Probe::Reject,
    }
}

/// The outcome of a node that needs bytes beyond the end of the subject.
pub fn run_out(ctx: &Ctx, pos: usize, meter: Meter) -> (r: Step)
    ensures
        r@ == out_of_subject(*ctx, pos, meter),
{
    match ctx.partial {
        PartialMode::Off => Step { out: Outcome::Failed, meter },
        PartialMode::Hard => if pos <= ctx.attempt {
            Step { out: Outcome::Failed, meter }
        } else {
            Step { out: Outcome::Partial, meter: meter.note(ctx.attempt) }
        },
        PartialMode::Soft => if pos <= ctx.attempt {
            Step { out: Outcome::Failed, meter }
        } else {
            Step { out: Outcome::Failed, meter: meter.note(ctx.attempt) }
        },
    }
}

} // verus!
