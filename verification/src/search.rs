//! The search for the leftmost match: one attempt after another, from the
//! start offset on.
//!
//! Every attempt has the whole of the limits to itself, the steps as well as
//! the depth. A start table lets the search pass over positions without an
//! attempt.

use crate::budget::{raised, run_carries, run_deeper, run_ignores_note};
use crate::bytes::{newline_at, spec_newline_at, Newline};
use crate::machine::run_machine;
use crate::matcher::{
    copy_slots, run_spec, set_group, slots_ok, Cont, Ctx, Env, EnvV, Meter, Outcome, OutcomeV,
    PartialMode, Slots, SlotsV, StepV,
};
use crate::program::{Program, ProgramV, SET_SIZE, UNSET};
use crate::study::{excluded, fails_quietly, start_table, start_table_sound};
use vstd::prelude::*;

verus! {

/// The settings of a search.
#[derive(Clone, Copy, Debug)]
pub struct Settings {
    /// Only the start offset is tried.
    pub anchored: bool,
    /// No position after the first newline is tried.
    pub first_line: bool,
    pub not_bol: bool,
    pub not_eol: bool,
    pub not_empty: bool,
    pub not_empty_at_start: bool,
    pub partial: PartialMode,
    pub newline: Newline,
}

/// The budgets of one attempt.
#[derive(Clone, Copy, Debug)]
pub struct Limits {
    /// How deep the matcher may nest.
    pub depth: usize,
    /// How many nodes the matcher may enter.
    pub steps: usize,
}

/// How a search ended.
#[derive(Debug)]
pub enum Found {
    /// A match from `start` to `end`; the slots hold the offsets of all
    /// groups, group 0 among them.
    Match { start: usize, end: usize, slots: Slots },
    /// No match, but from `start` on the subject ran out while it matched.
    Partial { start: usize },
    NoMatch,
    /// An attempt ran out of budget.
    LimitExceeded,
}

pub enum FoundV {
    Match { start: usize, end: usize, slots: SlotsV },
    Partial { start: usize },
    NoMatch,
    LimitExceeded,
}

impl View for Found {
    type V = FoundV;

    open spec fn view(&self) -> FoundV {
        match self {
            Found::Match { start, end, slots } => FoundV::Match {
                start: *start,
                end: *end,
                slots: slots@,
            },
            Found::Partial { start } => FoundV::Partial { start: *start },
            Found::NoMatch => FoundV::NoMatch,
            Found::LimitExceeded => FoundV::LimitExceeded,
        }
    }
}

/// The settings of the attempt at `at` in a search from `start_offset`.
pub open spec fn ctx_at(set: Settings, start_offset: usize, at: usize) -> Ctx {
    Ctx {
        start_offset,
        attempt: at,
        not_bol: set.not_bol,
        not_eol: set.not_eol,
        not_empty: set.not_empty,
        not_empty_at_start: set.not_empty_at_start,
        partial: set.partial,
        newline: set.newline,
    }
}

/// The slots before anything is captured: every offset unset, no mark.
pub open spec fn blank(prog: ProgramV) -> SlotsV {
    SlotsV { caps: Seq::new(prog.slot_count(), |i: int| UNSET), mark: None }
}

/// The outcome of the attempt at `at`. The attempt has the whole of the
/// limits to itself; `hit_end` is what the attempts before it noted.
pub open spec fn attempt_spec(
    prog: ProgramV,
    s: Seq<u8>,
    set: Settings,
    limits: Limits,
    start_offset: usize,
    at: usize,
    hit_end: Option<usize>,
) -> StepV {
    run_spec(
        EnvV { prog, subject: s, ctx: ctx_at(set, start_offset, at) },
        prog.root,
        Cont::Accept,
        at,
        blank(prog),
        limits.depth as nat,
        Meter { steps: limits.steps, hit_end },
    )
}

/// How a search ends that found no match.
pub open spec fn give_up(hit_end: Option<usize>) -> FoundV {
    match hit_end {
        Some(start) => FoundV::Partial { start },
        None => FoundV::NoMatch,
    }
}

/// Whether `at` is the last position that the search tries.
pub open spec fn is_last(s: Seq<u8>, set: Settings, at: int) -> bool {
    set.anchored || at >= s.len() || (set.first_line && spec_newline_at(
        s,
        at as usize,
        set.newline,
    ) > 0)
}

/// Whether the search passes over `at` without an attempt.
pub open spec fn passes_over(table: Option<Seq<bool>>, s: Seq<u8>, at: usize) -> bool {
    table matches Some(t) && excluded(t, s, at)
}

/// The result of the search that tries `at` and then the positions after
/// it. Every attempt has the whole of the limits to itself; `hit_end` is
/// what the attempts before `at` noted.
pub open spec fn search_spec(
    prog: ProgramV,
    s: Seq<u8>,
    set: Settings,
    table: Option<Seq<bool>>,
    limits: Limits,
    start_offset: usize,
    at: int,
    hit_end: Option<usize>,
) -> FoundV
    decreases s.len() - at,
{
    let here = at as usize;
    if at < 0 || at > s.len() {
        give_up(hit_end)
    } else if passes_over(table, s, here) {
        if is_last(s, set, at) {
            give_up(hit_end)
        } else {
            search_spec(prog, s, set, table, limits, start_offset, at + 1, hit_end)
        }
    } else {
        let r = attempt_spec(prog, s, set, limits, start_offset, here, hit_end);
        match r.out {
            OutcomeV::Matched { end, slots } => FoundV::Match {
                start: here,
                end,
                slots: SlotsV { caps: set_group(slots.caps, 0, here, end), mark: slots.mark },
            },
            OutcomeV::LimitHit => FoundV::LimitExceeded,
            OutcomeV::Partial => FoundV::Partial { start: here },
            OutcomeV::Failed => if is_last(s, set, at) {
                give_up(r.meter.hit_end)
            } else {
                search_spec(prog, s, set, table, limits, start_offset, at + 1, r.meter.hit_end)
            },
        }
    }
}

/// A search with the start table of the program finds what the search
/// without a table finds, wherever the latter stays within its limits.
pub proof fn table_keeps_result(
    prog: ProgramV,
    s: Seq<u8>,
    set: Settings,
    fuel: nat,
    limits: Limits,
    start_offset: usize,
    at: int,
    hit_end: Option<usize>,
)
    requires
        prog.wf(),
        search_spec(prog, s, set, None, limits, start_offset, at, hit_end)
            != FoundV::LimitExceeded,
    ensures
        search_spec(
            prog,
            s,
            set,
            start_table(prog, prog.root, fuel),
            limits,
            start_offset,
            at,
            hit_end,
        ) == search_spec(prog, s, set, None, limits, start_offset, at, hit_end),
    decreases s.len() - at,
{
    let table = start_table(prog, prog.root, fuel);
    let here = at as usize;
    if at < 0 || at > s.len() {
    } else {
        let env = EnvV { prog, subject: s, ctx: ctx_at(set, start_offset, here) };
        let meter = Meter { steps: limits.steps, hit_end };
        let r = attempt_spec(prog, s, set, limits, start_offset, here, hit_end);
        if passes_over(table, s, here) {
            start_table_sound(
                env,
                prog.root,
                fuel,
                Cont::Accept,
                blank(prog),
                limits.depth as nat,
                meter,
            );
            assert(fails_quietly(r, meter));
            assert(r.out is Failed);
            if !is_last(s, set, at) {
                table_keeps_result(prog, s, set, fuel, limits, start_offset, at + 1, hit_end);
            }
        } else if r.out is Failed && !is_last(s, set, at) {
            table_keeps_result(prog, s, set, fuel, limits, start_offset, at + 1, r.meter.hit_end);
        }
    }
}

/// Whether `larger` allows at least the steps and the depth of `limits`.
pub open spec fn allows(larger: Limits, limits: Limits) -> bool {
    limits.steps <= larger.steps && limits.depth <= larger.depth
}

/// A search that stays within its limits finds the same within larger
/// ones.
pub proof fn search_carries(
    prog: ProgramV,
    s: Seq<u8>,
    set: Settings,
    table: Option<Seq<bool>>,
    limits: Limits,
    larger: Limits,
    start_offset: usize,
    at: int,
    hit_end: Option<usize>,
)
    requires
        allows(larger, limits),
        search_spec(prog, s, set, table, limits, start_offset, at, hit_end)
            != FoundV::LimitExceeded,
    ensures
        search_spec(prog, s, set, table, larger, start_offset, at, hit_end) == search_spec(
            prog,
            s,
            set,
            table,
            limits,
            start_offset,
            at,
            hit_end,
        ),
    decreases s.len() - at,
{
    let here = at as usize;
    if at < 0 || at > s.len() {
    } else if passes_over(table, s, here) {
        if !is_last(s, set, at) {
            search_carries(prog, s, set, table, limits, larger, start_offset, at + 1, hit_end);
        }
    } else {
        let env = EnvV { prog, subject: s, ctx: ctx_at(set, start_offset, here) };
        let meter = Meter { steps: limits.steps, hit_end };
        let more = Meter { steps: larger.steps, hit_end };
        let r = attempt_spec(prog, s, set, limits, start_offset, here, hit_end);
        let extra = (larger.steps - limits.steps) as nat;
        assert(raised(meter, extra) == more);
        run_carries(
            env,
            prog.root,
            Cont::Accept,
            here,
            blank(prog),
            limits.depth as nat,
            meter,
            extra,
        );
        run_deeper(
            env,
            prog.root,
            Cont::Accept,
            here,
            blank(prog),
            limits.depth as nat,
            more,
            (larger.depth - limits.depth) as nat,
        );
        if r.out is Failed && !is_last(s, set, at) {
            search_carries(
                prog,
                s,
                set,
                table,
                limits,
                larger,
                start_offset,
                at + 1,
                r.meter.hit_end,
            );
        }
    }
}

/// Whether the pattern matches at `p`, within the limits.
pub open spec fn matches_at(
    prog: ProgramV,
    s: Seq<u8>,
    set: Settings,
    limits: Limits,
    start_offset: usize,
    p: usize,
) -> bool {
    attempt_spec(prog, s, set, limits, start_offset, p, None).out is Matched
}

/// Whether a search ended at `end` for certain: it found a match that
/// begins there, or no match at all, in which case `end` is beyond the
/// subject.
pub open spec fn settled_before(found: FoundV, end: int, len: int) -> bool {
    match found {
        FoundV::Match { start, end: match_end, slots } => end == start,
        FoundV::NoMatch => end == len + 1,
        _ => false,
    }
}

/// The leftmost match wins, and no match is for certain: where a search
/// that tries every position finds a match, the pattern matches at no
/// position before it, and where it finds none, the pattern matches at no
/// position at all, within these limits or any larger ones.
pub proof fn no_match_before(
    prog: ProgramV,
    s: Seq<u8>,
    set: Settings,
    table: Option<Seq<bool>>,
    fuel: nat,
    limits: Limits,
    larger: Limits,
    start_offset: usize,
    at: int,
    hit_end: Option<usize>,
    end: int,
    p: int,
)
    requires
        prog.wf(),
        table is None || table == start_table(prog, prog.root, fuel),
        !set.anchored,
        !set.first_line,
        allows(larger, limits),
        s.len() <= usize::MAX,
        0 <= at <= p < end,
        p <= s.len(),
        settled_before(
            search_spec(prog, s, set, table, limits, start_offset, at, hit_end),
            end,
            s.len() as int,
        ),
    ensures
        !matches_at(prog, s, set, larger, start_offset, p as usize),
    decreases s.len() - at,
{
    let here = at as usize;
    let env = EnvV { prog, subject: s, ctx: ctx_at(set, start_offset, here) };
    let meter = Meter { steps: limits.steps, hit_end };
    let r = attempt_spec(prog, s, set, limits, start_offset, here, hit_end);
    if passes_over(table, s, here) {
        if p == at {
            start_table_sound(
                env,
                prog.root,
                fuel,
                Cont::Accept,
                blank(prog),
                larger.depth as nat,
                Meter { steps: larger.steps, hit_end: None },
            );
        } else {
            no_match_before(
                prog,
                s,
                set,
                table,
                fuel,
                limits,
                larger,
                start_offset,
                at + 1,
                hit_end,
                end,
                p,
            );
        }
    } else {
        assert(r.out is Failed);
        if p == at {
            let extra = (larger.steps - limits.steps) as nat;
            let more = Meter { steps: larger.steps, hit_end };
            assert(raised(meter, extra) == more);
            run_carries(
                env,
                prog.root,
                Cont::Accept,
                here,
                blank(prog),
                limits.depth as nat,
                meter,
                extra,
            );
            run_deeper(
                env,
                prog.root,
                Cont::Accept,
                here,
                blank(prog),
                limits.depth as nat,
                more,
                (larger.depth - limits.depth) as nat,
            );
            run_ignores_note(
                env,
                prog.root,
                Cont::Accept,
                here,
                blank(prog),
                larger.depth as nat,
                more,
                None,
            );
        } else {
            no_match_before(
                prog,
                s,
                set,
                table,
                fuel,
                limits,
                larger,
                start_offset,
                at + 1,
                r.meter.hit_end,
                end,
                p,
            );
        }
    }
}

/// The view of an optional table.
pub open spec fn table_view(table: Option<&Vec<bool>>) -> Option<Seq<bool>> {
    match table {
        Some(t) => Some(t@),
        None => None,
    }
}

/// Slots with every offset unset and no mark.
pub fn blank_slots(prog: &Program) -> (r: Slots)
    requires
        prog.wf(),
    ensures
        r@ == blank(prog@),
{
    let n = 2 * (prog.group_count + 1);
    let mut caps: Vec<usize> = Vec::with_capacity(n);
    let mut i: usize = 0;
    while i < n
        invariant
            i <= n,
            caps@.len() == i,
            forall|j: int| 0 <= j < i ==> caps@[j] == UNSET,
        decreases n - i,
    {
        caps.push(UNSET);
        i += 1;
    }
    assert(caps@ =~= blank(prog@).caps);
    Slots { caps, mark: None }
}

/// Whether a result lies within a subject of `len` bytes with its offsets
/// in order and group 0 spanning the match.
pub open spec fn found_ok(f: FoundV, prog: ProgramV, len: int, from: usize) -> bool {
    match f {
        FoundV::Match { start, end, slots } => {
            &&& from <= start <= end <= len
            &&& slots_ok(slots, prog, len)
            &&& slots.caps[0] == start
            &&& slots.caps[1] == end
        },
        FoundV::Partial { start } => from <= start <= len,
        _ => true,
    }
}

/// Searches `subject` for the leftmost match at or after `start_offset`.
pub fn search(
    prog: &Program,
    subject: &[u8],
    set: &Settings,
    table: Option<&Vec<bool>>,
    limits: &Limits,
    start_offset: usize,
) -> (found: Found)
    requires
        prog.wf(),
        start_offset <= subject@.len(),
        table matches Some(t) ==> t@.len() == SET_SIZE,
    ensures
        found@ == search_spec(
            prog@,
            subject@,
            *set,
            table_view(table),
            *limits,
            start_offset,
            start_offset as int,
            None,
        ),
        found_ok(found@, prog@, subject@.len() as int, start_offset),
{
    let ghost tv = table_view(table);
    let ghost goal = search_spec(
        prog@,
        subject@,
        *set,
        tv,
        *limits,
        start_offset,
        start_offset as int,
        None,
    );
    let mut at = start_offset;
    let mut hit_end: Option<usize> = None;
    let fresh = blank_slots(prog);
    loop
        invariant
            prog.wf(),
            start_offset <= at <= subject@.len(),
            table matches Some(t) ==> t@.len() == SET_SIZE,
            tv == table_view(table),
            fresh@ == blank(prog@),
            hit_end matches Some(h) ==> start_offset <= h <= subject@.len(),
            goal == search_spec(
                prog@,
                subject@,
                *set,
                tv,
                *limits,
                start_offset,
                start_offset as int,
                None,
            ),
            goal == search_spec(prog@, subject@, *set, tv, *limits, start_offset, at as int, hit_end),
        decreases subject@.len() - at,
    {
        let skip = match table {
            Some(t) => at >= subject.len() || !t[subject[at] as usize],
            None => false,
        };
        let last = set.anchored || at >= subject.len() || (set.first_line && newline_at(
            subject,
            at,
            set.newline,
        ) > 0);
        if !skip {
            let env = Env {
                prog,
                subject,
                ctx: Ctx {
                    start_offset,
                    attempt: at,
                    not_bol: set.not_bol,
                    not_eol: set.not_eol,
                    not_empty: set.not_empty,
                    not_empty_at_start: set.not_empty_at_start,
                    partial: set.partial,
                    newline: set.newline,
                },
            };
            assert(slots_ok(fresh@, prog@, subject@.len() as int));
            let r = run_machine(
                &env,
                prog.root,
                at,
                copy_slots(&fresh),
                limits.depth,
                Meter { steps: limits.steps, hit_end },
            );
            assert(r@ == attempt_spec(prog@, subject@, *set, *limits, start_offset, at, hit_end));
            match r.out {
                Outcome::Matched { end, slots } => {
                    let mut slots = slots;
                    proof {
                        crate::matcher::set_group_ok(
                            slots@.caps,
                            prog.group_count as int,
                            subject@.len() as int,
                            0,
                            at,
                            end,
                        );
                    }
                    slots.caps[0] = at;
                    slots.caps[1] = end;
                    return Found::Match { start: at, end, slots };
                },
                Outcome::LimitHit => {
                    return Found::LimitExceeded;
                },
                Outcome::Partial => {
                    return Found::Partial { start: at };
                },
                Outcome::Failed => {
                    hit_end = r.meter.hit_end;
                },
            }
        }
        if last {
            return match hit_end {
                Some(start) => Found::Partial { start },
                None => Found::NoMatch,
            };
        }
        at += 1;
    }
}

} // verus!
