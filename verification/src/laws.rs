//! What holds of the library as a whole.

use crate::compile::spec_compile;
use crate::exec::{spec_settings, table_used, ExecError};
use crate::iteration::IterV;
use crate::language::{match_spans, spans};
use crate::matcher::EnvV;
use crate::names::{
    distinct, distinct_are_names, groups_named, name_of, spec_name_table, table_of, NameEntryV,
};
use crate::options::{CLike, ExecOption};
use crate::pattern::PcreV;
use crate::program::{word_bytes, ProgramV};
use crate::search::{
    allows, ctx_at, found_ok, matches_at, no_match_before, search_carries, table_keeps_result,
    FoundV, Limits,
};
use crate::sound::{search_not_partial, search_not_refused, search_sound};
use crate::study::STUDY_DEPTH;
use crate::syntax::Fault;
use crate::text::{all_ascii, as_chars, ascii_is_text};
use vstd::prelude::*;
use vstd::utf8::is_char_boundary;

verus! {

/// Compiling is a function of the pattern and the options, and matching is
/// a function of the program: two patterns compiled from the same text
/// under the same options give the same result on every subject, from every
/// offset and under all options.
pub proof fn compiled_twice_matches_alike(
    pattern: Seq<u8>,
    options: Set<nat>,
    first: PcreV,
    second: PcreV,
    subject: Seq<u8>,
    start: usize,
    exec_options: Set<nat>,
)
    requires
        spec_compile(pattern, options) == Ok::<ProgramV, Fault>(first.program),
        spec_compile(pattern, options) == Ok::<ProgramV, Fault>(second.program),
        first.wf(),
        second.wf(),
        first.extra is None,
        second.extra is None,
    ensures
        first.outcome(subject, start, exec_options) == second.outcome(subject, start, exec_options),
        first.after(first.outcome(subject, start, exec_options)).mark == second.after(
            second.outcome(subject, start, exec_options),
        ).mark,
{
}

/// Studying a pattern that was studied gives what the first study gave.
pub proof fn studying_again_changes_nothing(re: PcreV, options: Set<nat>)
    ensures
        re.studied(options).studied(options) == re.studied(options),
{
    let once = re.studied(options);
    let twice = once.studied(options);
    match once.extra {
        Some(e) => {
            assert(twice.extra->0.flags =~= e.flags);
        },
        None => {},
    }
}

/// Studying changes no result: a pattern and the same pattern studied,
/// under whatever options, give the same result on every subject, from every
/// offset and under all options; and they have the same program, so the
/// same groups and names.
pub proof fn studying_keeps_results(
    re: PcreV,
    study_options: Set<nat>,
    subject: Seq<u8>,
    start: usize,
    exec_options: Set<nat>,
)
    ensures
        re.studied(study_options).outcome(subject, start, exec_options) == re.outcome(
            subject,
            start,
            exec_options,
        ),
        re.studied(study_options).program == re.program,
        re.studied(study_options).mark == re.mark,
        re.wf() ==> re.studied(study_options).wf(),
{
    let studied = re.studied(study_options);
    assert(studied.limits() == re.limits());
}

/// The start table changes no result: a match that does without it, as
/// `ExecNoStartOptimise` asks, and stays within its limits finds what the
/// match with it finds.
pub proof fn start_table_keeps_results(
    re: PcreV,
    subject: Seq<u8>,
    start: usize,
    exec_options: Set<nat>,
)
    requires
        re.wf(),
        !exec_options.contains(ExecOption::ExecNoStartOptimise.ordinal()),
        re.outcome(
            subject,
            start,
            exec_options.insert(ExecOption::ExecNoStartOptimise.ordinal()),
        ) != Err::<FoundV, ExecError>(ExecError::MatchLimitExceeded),
    ensures
        re.outcome(subject, start, exec_options) == re.outcome(
            subject,
            start,
            exec_options.insert(ExecOption::ExecNoStartOptimise.ordinal()),
        ),
{
    let without = exec_options.insert(ExecOption::ExecNoStartOptimise.ordinal());
    assert(spec_settings(re.program, without) == spec_settings(re.program, exec_options));
    match spec_settings(re.program, exec_options) {
        None => {},
        Some(set) => {
            table_keeps_result(
                re.program,
                subject,
                set,
                STUDY_DEPTH as nat,
                re.limits(),
                start,
                start as int,
                None,
            );
        },
    }
}

/// Whether a match of `re` under `options` tries every position from the
/// start offset on: nothing anchors it, and it is not held to the first
/// line.
pub open spec fn tries_every_position(re: PcreV, options: Set<nat>) -> bool {
    !re.program.anchored && !re.program.first_line && !options.contains(
        ExecOption::ExecAnchored.ordinal(),
    )
}

/// No match is for certain, and the leftmost match wins. Where a match that
/// tries every position answers that there is none, the pattern matches at
/// no position from the start offset to the end of the subject; where it
/// finds a match, the pattern matches at no position before the match. That
/// holds within the limits of the pattern and within all larger ones.
pub proof fn no_match_is_for_certain(
    re: PcreV,
    larger: Limits,
    subject: Seq<u8>,
    start: usize,
    exec_options: Set<nat>,
    p: usize,
)
    requires
        re.wf(),
        tries_every_position(re, exec_options),
        allows(larger, re.limits()),
        start <= p <= subject.len() <= usize::MAX,
        match re.outcome(subject, start, exec_options) {
            Ok(FoundV::NoMatch) => true,
            Ok(FoundV::Match { start: from, end, slots }) => p < from,
            _ => false,
        },
    ensures
        !matches_at(
            re.program,
            subject,
            spec_settings(re.program, exec_options)->0,
            larger,
            start,
            p,
        ),
{
    let set = spec_settings(re.program, exec_options)->0;
    let table = table_used(re.start, exec_options);
    let found = re.outcome(subject, start, exec_options)->Ok_0;
    let end = match found {
        FoundV::Match { start: from, end, slots } => from as int,
        _ => subject.len() as int + 1,
    };
    no_match_before(
        re.program,
        subject,
        set,
        table,
        STUDY_DEPTH as nat,
        re.limits(),
        larger,
        start,
        start as int,
        None,
        end,
        p as int,
    );
}

/// Every match lies within the subject at or after the start offset: it
/// begins there or later, ends no earlier than it begins, and each of its
/// groups is unset or a range within the subject.
pub proof fn matches_lie_within_the_subject(
    re: PcreV,
    subject: Seq<u8>,
    start: usize,
    exec_options: Set<nat>,
)
    requires
        re.wf(),
        start <= subject.len() <= usize::MAX,
    ensures
        re.outcome(subject, start, exec_options) matches Ok(found) ==> found_ok(
            found,
            re.program,
            subject.len() as int,
            start,
        ),
{
    match spec_settings(re.program, exec_options) {
        None => {},
        Some(set) => {
            search_sound(
                re.program,
                subject,
                set,
                table_used(re.start, exec_options),
                re.limits(),
                start,
                start as int,
                None,
            );
        },
    }
}

/// Whether `larger` has the program, start table and mark of `re` and
/// limits that allow at least what those of `re` allow.
pub open spec fn with_larger_limits(re: PcreV, larger: PcreV) -> bool {
    &&& larger.program == re.program
    &&& larger.start == re.start
    &&& allows(larger.limits(), re.limits())
}

/// Larger limits change no result: what a pattern finds within its match
/// limit and its recursion limit it finds within all larger ones.
pub proof fn larger_limits_keep_results(
    re: PcreV,
    larger: PcreV,
    subject: Seq<u8>,
    start: usize,
    exec_options: Set<nat>,
)
    requires
        with_larger_limits(re, larger),
        re.outcome(subject, start, exec_options) != Err::<FoundV, ExecError>(
            ExecError::MatchLimitExceeded,
        ),
    ensures
        larger.outcome(subject, start, exec_options) == re.outcome(subject, start, exec_options),
{
    match spec_settings(re.program, exec_options) {
        None => {},
        Some(set) => {
            search_carries(
                re.program,
                subject,
                set,
                table_used(re.start, exec_options),
                re.limits(),
                larger.limits(),
                start,
                start as int,
                None,
            );
        },
    }
}

/// What matches is what the pattern describes: the program of the pattern
/// spans the subject from the start of every match to its end.
pub proof fn matches_are_described(
    re: PcreV,
    subject: Seq<u8>,
    start: usize,
    exec_options: Set<nat>,
)
    requires
        re.wf(),
    ensures
        re.outcome(subject, start, exec_options) matches Ok(FoundV::Match { start: from, end, slots })
            ==> spans(
            EnvV {
                prog: re.program,
                subject,
                ctx: ctx_at(spec_settings(re.program, exec_options)->0, start, from),
            },
            re.program.root as int,
            from,
            end,
        ),
{
    match spec_settings(re.program, exec_options) {
        None => {},
        Some(set) => {
            match_spans(
                re.program,
                subject,
                set,
                table_used(re.start, exec_options),
                re.limits(),
                start,
                start as int,
                None,
            );
        },
    }
}

/// Under `ExecNotEmpty` no match is empty.
pub proof fn not_empty_matches_are_not_empty(
    re: PcreV,
    subject: Seq<u8>,
    start: usize,
    exec_options: Set<nat>,
)
    requires
        re.wf(),
        start <= subject.len() <= usize::MAX,
        exec_options.contains(ExecOption::ExecNotEmpty.ordinal()),
    ensures
        re.outcome(subject, start, exec_options) matches Ok(FoundV::Match { start: from, end, slots })
            ==> from < end,
{
    matches_lie_within_the_subject(re, subject, start, exec_options);
    match spec_settings(re.program, exec_options) {
        None => {},
        Some(set) => {
            search_not_refused(
                re.program,
                subject,
                set,
                table_used(re.start, exec_options),
                re.limits(),
                start,
                start as int,
                None,
            );
        },
    }
}

/// Without `ExecPartialSoft` and `ExecPartialHard` no match is partial.
pub proof fn partial_matches_come_on_request_only(
    re: PcreV,
    subject: Seq<u8>,
    start: usize,
    exec_options: Set<nat>,
)
    requires
        re.wf(),
        start <= subject.len() <= usize::MAX,
        !exec_options.contains(ExecOption::ExecPartialSoft.ordinal()),
        !exec_options.contains(ExecOption::ExecPartialHard.ordinal()),
    ensures
        !(re.outcome(subject, start, exec_options) matches Ok(FoundV::Partial { start: from })),
{
    match spec_settings(re.program, exec_options) {
        None => {},
        Some(set) => {
            search_not_partial(
                re.program,
                subject,
                set,
                table_used(re.start, exec_options),
                re.limits(),
                start,
                start as int,
                None,
            );
        },
    }
}

/// Under `ExecAnchored`, or where the pattern was compiled as anchored, a
/// match begins at the start offset.
pub proof fn anchored_matches_begin_at_the_offset(
    re: PcreV,
    subject: Seq<u8>,
    start: usize,
    exec_options: Set<nat>,
)
    requires
        start <= subject.len() <= usize::MAX,
        re.program.anchored || exec_options.contains(ExecOption::ExecAnchored.ordinal()),
    ensures
        re.outcome(subject, start, exec_options) matches Ok(FoundV::Match { start: from, end, slots })
            ==> from == start,
{
}

/// The matches of an iterator do not overlap: a match begins no earlier
/// than the match before it ended.
pub proof fn iterator_matches_do_not_overlap(it: IterV)
    requires
        it.wf(),
        !it.done,
        !it.advanced().done,
    ensures
        it.found() matches Ok(FoundV::Match { start: first_start, end: first_end, slots: first_slots })
            ==> (it.advanced().found() matches Ok(
            FoundV::Match { start: next_start, end: next_end, slots: next_slots },
        ) ==> first_end <= next_start),
{
    matches_lie_within_the_subject(it.re, it.subject, it.offset, it.options);
    iterator_goes_forward(it);
    let next = it.advanced();
    matches_lie_within_the_subject(next.re, next.subject, next.offset, next.options);
}

/// An iterator never goes back: while it is not exhausted, every call
/// moves its offset forward, and the offset stays within the subject.
pub proof fn iterator_goes_forward(it: IterV)
    requires
        it.wf(),
        !it.done,
        !it.advanced().done,
    ensures
        it.offset < it.advanced().offset <= it.subject.len(),
        it.advanced().wf(),
{
    matches_lie_within_the_subject(it.re, it.subject, it.offset, it.options);
}

/// Every call of an iterator that is not exhausted finds what one match of
/// its pattern finds from the iterator's offset on, and leaves an iterator
/// in order.
pub proof fn iterator_finds_what_a_match_finds(it: IterV)
    requires
        it.wf(),
        !it.done,
    ensures
        it.found() == it.re.outcome(it.subject, it.offset, it.options),
        it.advanced().wf(),
        it.advanced().re == it.re,
        it.advanced().subject == it.subject,
        it.advanced().options == it.options,
{
    matches_lie_within_the_subject(it.re, it.subject, it.offset, it.options);
}

/// An iterator that is exhausted stays exhausted and finds nothing.
pub proof fn exhausted_stays_exhausted(it: IterV)
    requires
        it.done,
    ensures
        it.advanced() == it,
        it.found() == Ok::<FoundV, ExecError>(FoundV::NoMatch),
{
}

/// The name of a named group is among the distinct names up to any point
/// after the group.
pub proof fn name_is_among_distinct(prog: ProgramV, j: int, upto: int)
    requires
        0 <= j < upto,
    ensures
        distinct(prog, upto).contains(name_of(prog, j)),
    decreases upto,
{
    let before = distinct(prog, upto - 1);
    let last = name_of(prog, upto - 1);
    if j < upto - 1 {
        name_is_among_distinct(prog, j, upto - 1);
        let k = choose|k: int| 0 <= k < before.len() && before[k] == name_of(prog, j);
        if !before.contains(last) {
            assert(before.push(last)[k] == name_of(prog, j));
        }
    } else if before.contains(last) {
    } else {
        assert(before.push(last)[before.len() as int] == last);
    }
}

/// The number of a named group is among the numbers listed under its name
/// up to any point after the group.
pub proof fn number_is_listed(prog: ProgramV, j: int, upto: int)
    requires
        0 <= j < upto,
    ensures
        groups_named(prog, name_of(prog, j), upto).contains(prog.names[j].index),
    decreases upto,
{
    let name = name_of(prog, j);
    let before = groups_named(prog, name, upto - 1);
    if j < upto - 1 {
        number_is_listed(prog, j, upto - 1);
        let k = choose|k: int| 0 <= k < before.len() && before[k] == prog.names[j].index;
        if name_of(prog, upto - 1) == name {
            assert(before.push(prog.names[upto - 1].index)[k] == prog.names[j].index);
        }
    } else {
        assert(before.push(prog.names[j].index)[before.len() as int] == prog.names[j].index);
    }
}

/// The name table keeps every named group: the table has an entry with the
/// name of the group, and the entry lists the number of the group.
pub proof fn name_table_keeps_every_group(prog: ProgramV, j: int)
    requires
        0 <= j < prog.names.len(),
    ensures
        exists|k: int|
            0 <= k < spec_name_table(prog).len() && (#[trigger] spec_name_table(prog)[k]).name
                == as_chars(name_of(prog, j)) && spec_name_table(prog)[k].indices.contains(
                prog.names[j].index,
            ),
{
    let n = prog.names.len() as int;
    let names = distinct(prog, n);
    name_is_among_distinct(prog, j, n);
    number_is_listed(prog, j, n);
    let k = choose|k: int| 0 <= k < names.len() && names[k] == name_of(prog, j);
    assert(spec_name_table(prog)[k].name == as_chars(name_of(prog, j)));
}

/// Every number that is listed under a name is the number of a capture
/// group of the program.
pub proof fn listed_numbers_are_groups(prog: ProgramV, name: Seq<u8>, upto: int, i: int)
    requires
        prog.wf(),
        upto <= prog.names.len(),
        0 <= i < groups_named(prog, name, upto).len(),
    ensures
        1 <= groups_named(prog, name, upto)[i] <= prog.group_count,
    decreases upto,
{
    if upto > 0 {
        let before = groups_named(prog, name, upto - 1);
        if i < before.len() {
            listed_numbers_are_groups(prog, name, upto - 1, i);
        } else {
            assert(1 <= prog.names[upto - 1].index <= prog.group_count);
        }
    }
}

/// The numbers of the named groups grow in the order in which the pattern
/// opens the groups.
pub proof fn named_groups_are_in_order(prog: ProgramV, i: int, j: int)
    requires
        prog.wf(),
        0 <= i < j < prog.names.len(),
    ensures
        prog.names[i].index < prog.names[j].index,
    decreases j - i,
{
    if i + 1 < j {
        named_groups_are_in_order(prog, i, j - 1);
    }
    assert(prog.names[j - 1].index < prog.names[j].index);
}

/// No name stands twice in the name table.
pub proof fn names_are_distinct(prog: ProgramV, upto: int, i: int, j: int)
    requires
        0 <= i < j < distinct(prog, upto).len(),
    ensures
        distinct(prog, upto)[i] != distinct(prog, upto)[j],
    decreases upto,
{
    if upto > 0 {
        let before = distinct(prog, upto - 1);
        let last = name_of(prog, upto - 1);
        if before.contains(last) || j < before.len() {
            names_are_distinct(prog, upto - 1, i, j);
        } else {
            assert(before.push(last)[i] == before[i]);
            if before[i] == last {
                assert(before.contains(last));
            }
        }
    }
}

/// Every number that is listed under a name is the number of a named
/// group of that name. The result is which.
pub proof fn listed_number_is_of_a_group(prog: ProgramV, name: Seq<u8>, upto: int, i: int) -> (k: int)
    requires
        0 <= i < groups_named(prog, name, upto).len(),
    ensures
        0 <= k < upto,
        name_of(prog, k) == name,
        prog.names[k].index == groups_named(prog, name, upto)[i],
    decreases upto,
{
    let before = groups_named(prog, name, upto - 1);
    if i < before.len() {
        let k = listed_number_is_of_a_group(prog, name, upto - 1, i);
        if name_of(prog, upto - 1) == name {
            assert(before.push(prog.names[upto - 1].index)[i] == before[i]);
        }
        k
    } else {
        upto - 1
    }
}

/// No number stands twice under a name: the numbers under a name grow.
pub proof fn listed_numbers_grow(prog: ProgramV, name: Seq<u8>, upto: int, i: int, j: int)
    requires
        prog.wf(),
        upto <= prog.names.len(),
        0 <= i < j < groups_named(prog, name, upto).len(),
    ensures
        groups_named(prog, name, upto)[i] < groups_named(prog, name, upto)[j],
    decreases upto,
{
    if upto > 0 {
        let before = groups_named(prog, name, upto - 1);
        if j < before.len() {
            listed_numbers_grow(prog, name, upto - 1, i, j);
            if name_of(prog, upto - 1) == name {
                assert(before.push(prog.names[upto - 1].index)[i] == before[i]);
                assert(before.push(prog.names[upto - 1].index)[j] == before[j]);
            }
        } else {
            let k = listed_number_is_of_a_group(prog, name, upto - 1, i);
            assert(before.push(prog.names[upto - 1].index)[i] == before[i]);
            named_groups_are_in_order(prog, k, upto - 1);
        }
    }
}

/// No number stands under two names.
pub proof fn a_number_has_one_name(
    prog: ProgramV,
    first: Seq<u8>,
    second: Seq<u8>,
    i: int,
    j: int,
)
    requires
        prog.wf(),
        0 <= i < groups_named(prog, first, prog.names.len() as int).len(),
        0 <= j < groups_named(prog, second, prog.names.len() as int).len(),
        groups_named(prog, first, prog.names.len() as int)[i] == groups_named(
            prog,
            second,
            prog.names.len() as int,
        )[j],
    ensures
        first == second,
{
    let n = prog.names.len() as int;
    let a = listed_number_is_of_a_group(prog, first, n, i);
    let b = listed_number_is_of_a_group(prog, second, n, j);
    if a < b {
        named_groups_are_in_order(prog, a, b);
    } else if b < a {
        named_groups_are_in_order(prog, b, a);
    }
}

/// The number of the numbers in a table.
pub open spec fn entries_total(table: Seq<NameEntryV>) -> nat
    decreases table.len(),
{
    if table.len() == 0 {
        0
    } else {
        entries_total(table.drop_last()) + table.last().indices.len()
    }
}

/// No number is listed under a name that no group among the first `upto`
/// bears.
pub proof fn unused_name_lists_nothing(prog: ProgramV, name: Seq<u8>, upto: int)
    requires
        forall|j: int| 0 <= j < upto ==> name_of(prog, j) != name,
    ensures
        groups_named(prog, name, upto).len() == 0,
    decreases upto,
{
    if upto > 0 {
        unused_name_lists_nothing(prog, name, upto - 1);
    }
}

/// One more group adds nothing to the entries of other names.
pub proof fn other_entries_stay(prog: ProgramV, names: Seq<Seq<u8>>, upto: int)
    requires
        upto > 0,
        forall|k: int| 0 <= k < names.len() ==> names[k] != name_of(prog, upto - 1),
    ensures
        entries_total(table_of(prog, names, upto)) == entries_total(table_of(prog, names, upto - 1)),
    decreases names.len(),
{
    if names.len() > 0 {
        let rest = names.drop_last();
        assert(table_of(prog, names, upto).drop_last() =~= table_of(prog, rest, upto));
        assert(table_of(prog, names, upto - 1).drop_last() =~= table_of(prog, rest, upto - 1));
        assert forall|k: int| 0 <= k < rest.len() implies rest[k] != name_of(prog, upto - 1) by {
            assert(rest[k] == names[k]);
        }
        other_entries_stay(prog, rest, upto);
        assert(names.last() == names[names.len() - 1]);
    }
}

/// One more group adds one number to the entries, if its name is among
/// them once.
pub proof fn one_entry_grows(prog: ProgramV, names: Seq<Seq<u8>>, upto: int)
    requires
        upto > 0,
        names.contains(name_of(prog, upto - 1)),
        forall|i: int, j: int| 0 <= i < j < names.len() ==> names[i] != names[j],
    ensures
        entries_total(table_of(prog, names, upto)) == entries_total(table_of(prog, names, upto - 1))
            + 1,
    decreases names.len(),
{
    let name = name_of(prog, upto - 1);
    let rest = names.drop_last();
    let top = names.len() - 1;
    assert(names.len() > 0);
    assert(table_of(prog, names, upto).drop_last() =~= table_of(prog, rest, upto));
    assert(table_of(prog, names, upto - 1).drop_last() =~= table_of(prog, rest, upto - 1));
    assert(names.last() == names[top]);
    assert forall|i: int, j: int| 0 <= i < j < rest.len() implies rest[i] != rest[j] by {
        assert(rest[i] == names[i] && rest[j] == names[j]);
    }
    if names[top] == name {
        assert forall|k: int| 0 <= k < rest.len() implies rest[k] != name by {
            assert(rest[k] == names[k]);
        }
        other_entries_stay(prog, rest, upto);
    } else {
        let at = choose|at: int| 0 <= at < names.len() && names[at] == name;
        assert(rest[at] == name);
        one_entry_grows(prog, rest, upto);
    }
}

/// The entries of the name table list as many numbers as the first `upto`
/// named groups are.
pub proof fn entries_list_every_group_once(prog: ProgramV, upto: int)
    requires
        0 <= upto,
    ensures
        entries_total(table_of(prog, distinct(prog, upto), upto)) == upto,
    decreases upto,
{
    if upto > 0 {
        let before = distinct(prog, upto - 1);
        let name = name_of(prog, upto - 1);
        entries_list_every_group_once(prog, upto - 1);
        if before.contains(name) {
            assert forall|i: int, j: int| 0 <= i < j < before.len() implies before[i]
                != before[j] by {
                names_are_distinct(prog, upto - 1, i, j);
            }
            one_entry_grows(prog, before, upto);
        } else {
            let now = before.push(name);
            assert(table_of(prog, now, upto).drop_last() =~= table_of(prog, before, upto));
            assert forall|k: int| 0 <= k < before.len() implies before[k] != name by {
                if before[k] == name {
                    assert(before.contains(name));
                }
            }
            other_entries_stay(prog, before, upto);
            assert forall|j: int| 0 <= j < upto - 1 implies name_of(prog, j) != name by {
                name_is_among_distinct(prog, j, upto - 1);
            }
            unused_name_lists_nothing(prog, name, upto - 1);
            assert(now.last() == name);
        }
    } else {
        assert(table_of(prog, distinct(prog, upto), upto).len() == 0);
    }
}

/// The name count is the number of the numbers in the name table: every
/// named group is listed once.
pub proof fn name_count_is_the_sum_of_the_entries(prog: ProgramV)
    ensures
        entries_total(spec_name_table(prog)) == prog.names.len(),
{
    entries_list_every_group_once(prog, prog.names.len() as int);
}

/// The name table has no name twice.
pub proof fn name_table_has_no_name_twice(prog: ProgramV, i: int, j: int)
    requires
        prog.wf(),
        0 <= i < j < spec_name_table(prog).len(),
    ensures
        spec_name_table(prog)[i].name != spec_name_table(prog)[j].name,
{
    let n = prog.names.len() as int;
    let names = distinct(prog, n);
    names_are_distinct(prog, n, i, j);
    distinct_are_names(prog, n, i);
    distinct_are_names(prog, n, j);
    if as_chars(names[i]) == as_chars(names[j]) {
        chars_tell_bytes_apart(names[i], names[j]);
    }
}

/// Word bytes that differ differ as characters.
pub proof fn chars_tell_bytes_apart(a: Seq<u8>, b: Seq<u8>)
    requires
        word_bytes(a),
        word_bytes(b),
        as_chars(a) == as_chars(b),
    ensures
        a == b,
{
    assert(a.len() == as_chars(a).len());
    assert(b.len() == as_chars(b).len());
    assert forall|i: int| 0 <= i < a.len() implies a[i] == b[i] by {
        let x = a[i];
        let y = b[i];
        assert(as_chars(a)[i] == x as char);
        assert(as_chars(b)[i] == y as char);
        assert(x as char == y as char);
        assert((x as char) as u32 == x as u32);
        assert((y as char) as u32 == y as u32);
    }
    assert(a =~= b);
}

/// In an ASCII subject every offset lies between two characters, so that
/// every group of a match in it can be had as text.
pub proof fn ascii_has_boundaries_everywhere(bytes: Seq<u8>, i: int)
    requires
        all_ascii(bytes),
        0 <= i <= bytes.len(),
    ensures
        is_char_boundary(bytes, i),
{
    ascii_is_text(bytes);
    if 0 < i < bytes.len() {
        vstd::utf8::is_char_boundary_iff_not_is_continuation_byte(bytes, i);
        assert(bytes[i] < 0x80);
    } else {
        vstd::utf8::is_char_boundary_start_end_of_seq(bytes);
    }
}

} // verus!
