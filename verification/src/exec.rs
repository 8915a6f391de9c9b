//! One call of the matcher: from a program, a subject, a start offset and a
//! set of options to a result.

use crate::bytes::Newline;
use crate::compile::{newline_of, spec_newline};
use crate::matcher::PartialMode;
use crate::options::{CLike, EnumSet, ExecOption};
use crate::program::{Program, ProgramV, SET_SIZE};
use crate::search::{
    found_ok, search, search_spec, table_view, Found, FoundV, Limits, Settings,
};
use vstd::prelude::*;

verus! {

/// Why a call of the matcher gave no result.
#[derive(Clone, Copy, Debug, PartialEq, Eq, Structural)]
pub enum ExecError {
    /// An attempt ran out of its step budget or nested too deep.
    MatchLimitExceeded,
    /// The newline options of the call disagree.
    BadNewline,
}

/// Whether a set of ordinals holds the option.
pub open spec fn asks(options: Set<nat>, option: ExecOption) -> bool {
    options.contains(option.ordinal())
}

/// Whether the options of a call name a newline convention at all.
pub open spec fn names_newline(options: Set<nat>) -> bool {
    asks(options, ExecOption::ExecNewlineCR) || asks(options, ExecOption::ExecNewlineLF) || asks(
        options,
        ExecOption::ExecNewlineCRLF,
    ) || asks(options, ExecOption::ExecNewlineAny) || asks(options, ExecOption::ExecNewlineAnyCRLF)
}

/// The newline convention of a call: the one that its options spell, or
/// the program's where they name none.
pub open spec fn spec_exec_newline(prog: ProgramV, options: Set<nat>) -> Option<Newline> {
    if names_newline(options) {
        spec_newline(
            asks(options, ExecOption::ExecNewlineCR) || asks(options, ExecOption::ExecNewlineCRLF)
                || asks(options, ExecOption::ExecNewlineAnyCRLF),
            asks(options, ExecOption::ExecNewlineLF) || asks(options, ExecOption::ExecNewlineCRLF),
            asks(options, ExecOption::ExecNewlineAny) || asks(
                options,
                ExecOption::ExecNewlineAnyCRLF,
            ),
        )
    } else {
        Some(prog.newline)
    }
}

/// How a call treats the end of the subject. The hard mode wins over the
/// soft one.
pub open spec fn spec_partial(options: Set<nat>) -> PartialMode {
    if asks(options, ExecOption::ExecPartialHard) {
        PartialMode::Hard
    } else if asks(options, ExecOption::ExecPartialSoft) {
        PartialMode::Soft
    } else {
        PartialMode::Off
    }
}

/// The settings of the search that a call makes, if its newline options
/// agree.
pub open spec fn spec_settings(prog: ProgramV, options: Set<nat>) -> Option<Settings> {
    match spec_exec_newline(prog, options) {
        None => None,
        Some(newline) => Some(
            Settings {
                anchored: prog.anchored || asks(options, ExecOption::ExecAnchored),
                first_line: prog.first_line,
                not_bol: asks(options, ExecOption::ExecNotBol),
                not_eol: asks(options, ExecOption::ExecNotEol),
                not_empty: asks(options, ExecOption::ExecNotEmpty),
                not_empty_at_start: asks(options, ExecOption::ExecNotEmptyAtStart),
                partial: spec_partial(options),
                newline,
            },
        ),
    }
}

pub fn settings_of(prog: &Program, options: &EnumSet<ExecOption>) -> (r: Option<Settings>)
    ensures
        r == spec_settings(prog@, options@),
{
    let cr_alone = options.contains(&ExecOption::ExecNewlineCR);
    let lf_alone = options.contains(&ExecOption::ExecNewlineLF);
    let crlf = options.contains(&ExecOption::ExecNewlineCRLF);
    let any_alone = options.contains(&ExecOption::ExecNewlineAny);
    let anycrlf = options.contains(&ExecOption::ExecNewlineAnyCRLF);
    let named = cr_alone || lf_alone || crlf || any_alone || anycrlf;
    let newline = if named {
        newline_of(cr_alone || crlf || anycrlf, lf_alone || crlf, any_alone || anycrlf)
    } else {
        Some(prog.newline)
    };
    let partial = if options.contains(&ExecOption::ExecPartialHard) {
        PartialMode::Hard
    } else if options.contains(&ExecOption::ExecPartialSoft) {
        PartialMode::Soft
    } else {
        PartialMode::Off
    };
    match newline {
        None => None,
        Some(newline) => Some(
            Settings {
                anchored: prog.anchored || options.contains(&ExecOption::ExecAnchored),
                first_line: prog.first_line,
                not_bol: options.contains(&ExecOption::ExecNotBol),
                not_eol: options.contains(&ExecOption::ExecNotEol),
                not_empty: options.contains(&ExecOption::ExecNotEmpty),
                not_empty_at_start: options.contains(&ExecOption::ExecNotEmptyAtStart),
                partial,
                newline,
            },
        ),
    }
}

/// The start table that a call uses: the one it is given, unless its
/// options switch the use of it off.
pub open spec fn table_used(table: Option<Seq<bool>>, options: Set<nat>) -> Option<Seq<bool>> {
    if asks(options, ExecOption::ExecNoStartOptimise) {
        None
    } else {
        table
    }
}

/// The result of matching `prog` against `subject` from `start` on: the
/// leftmost match, or the reason why there is no result.
pub open spec fn exec_spec(
    prog: ProgramV,
    table: Option<Seq<bool>>,
    limits: Limits,
    subject: Seq<u8>,
    start: usize,
    options: Set<nat>,
) -> Result<FoundV, ExecError> {
    match spec_settings(prog, options) {
        None => Err(ExecError::BadNewline),
        Some(set) => {
            let found = search_spec(
                prog,
                subject,
                set,
                table_used(table, options),
                limits,
                start,
                start as int,
                None,
            );
            if found is LimitExceeded {
                Err(ExecError::MatchLimitExceeded)
            } else {
                Ok(found)
            }
        },
    }
}

/// Whether `r` is the result `v`.
pub open spec fn exec_agrees(r: Result<Found, ExecError>, v: Result<FoundV, ExecError>) -> bool {
    match r {
        Ok(found) => v == Ok::<FoundV, ExecError>(found@),
        Err(e) => v == Err::<FoundV, ExecError>(e),
    }
}

/// Matches `prog` against `subject` from `start` on.
pub fn pcre_exec(
    prog: &Program,
    table: Option<&Vec<bool>>,
    limits: &Limits,
    subject: &[u8],
    start: usize,
    options: &EnumSet<ExecOption>,
) -> (r: Result<Found, ExecError>)
    requires
        prog.wf(),
        start <= subject@.len(),
        table matches Some(t) ==> t@.len() == SET_SIZE,
    ensures
        exec_agrees(r, exec_spec(prog@, table_view(table), *limits, subject@, start, options@)),
        r matches Ok(found) ==> !(found is LimitExceeded) && found_ok(
            found@,
            prog@,
            subject@.len() as int,
            start,
        ),
{
    let set = match settings_of(prog, options) {
        None => {
            return Err(ExecError::BadNewline);
        },
        Some(set) => set,
    };
    let used = if options.contains(&ExecOption::ExecNoStartOptimise) {
        None
    } else {
        table
    };
    let found = search(prog, subject, &set, used, limits, start);
    match found {
        Found::LimitExceeded => Err(ExecError::MatchLimitExceeded),
        _ => Ok(found),
    }
}

} // verus!
