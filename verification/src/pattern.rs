//! The compiled pattern as callers hold it, with its start table, its
//! limits and the mark that the last match left.

use crate::compile::{pcre_compile, spec_compile};
use crate::error::CompilationError;
use crate::exec::{exec_agrees, exec_spec, pcre_exec, ExecError};
use crate::matches::{answers, in_subject, present, Match};
use crate::options::{CLike, CompileOption, EnumSet, ExecOption, ExtraOption, StudyOption};
use crate::program::{Program, ProgramV, SET_SIZE};
use crate::search::{table_view, Found, FoundV, Limits};
use crate::study::{pcre_study, study_spec};
use crate::syntax::Fault;
use crate::text::{is_text, spec_text_of, utf8_to_string};
use vstd::prelude::*;
use vstd::string::StringSliceAdditionalSpecFns;

verus! {

/// The step budget of a match for which no other was set: the number of
/// nodes that the matcher may enter in one attempt.
pub const DEFAULT_MATCH_LIMIT: usize = 10_000_000;

/// The nesting budget of a match for which no other was set: how deep one
/// attempt may nest.
pub const DEFAULT_MATCH_LIMIT_RECURSION: usize = 10_000_000;

/// The limits set for the matches of a pattern, and which of its fields
/// are in use.
#[derive(Debug)]
pub struct PcreExtra {
    flags: EnumSet<ExtraOption>,
    match_limit_: usize,
    match_limit_recursion_: usize,
}

/// An extra block as plain values.
pub struct ExtraV {
    /// The ordinals of the `ExtraOption`s that say which fields are in use.
    pub flags: Set<nat>,
    pub match_limit: usize,
    pub match_limit_recursion: usize,
}

impl ExtraV {
    pub open spec fn uses(self, option: ExtraOption) -> bool {
        self.flags.contains(option.ordinal())
    }
}

impl View for PcreExtra {
    type V = ExtraV;

    closed spec fn view(&self) -> ExtraV {
        ExtraV {
            flags: self.flags@,
            match_limit: self.match_limit_,
            match_limit_recursion: self.match_limit_recursion_,
        }
    }
}

impl PcreExtra {
    /// Returns the match limit, if previously set by `set_match_limit()`.
    pub fn match_limit(&self) -> (r: Option<usize>)
        ensures
            r == if self@.uses(ExtraOption::ExtraMatchLimit) {
                Some(self@.match_limit)
            } else {
                None
            },
    {
        if self.flags.contains(&ExtraOption::ExtraMatchLimit) {
            Some(self.match_limit_)
        } else {
            None
        }
    }

    /// Returns the recursion depth limit, if previously set by
    /// `set_match_limit_recursion()`.
    pub fn match_limit_recursion(&self) -> (r: Option<usize>)
        ensures
            r == if self@.uses(ExtraOption::ExtraMatchLimitRecursion) {
                Some(self@.match_limit_recursion)
            } else {
                None
            },
    {
        if self.flags.contains(&ExtraOption::ExtraMatchLimitRecursion) {
            Some(self.match_limit_recursion_)
        } else {
            None
        }
    }

    /// Has the matcher record mark names.
    pub fn set_mark(&mut self)
        ensures
            final(self)@ == (ExtraV {
                flags: old(self)@.flags.insert(ExtraOption::ExtraMark.ordinal()),
                ..old(self)@
            }),
    {
        self.flags.insert(ExtraOption::ExtraMark);
    }

    /// Sets the match limit to `limit` instead of the default.
    pub fn set_match_limit(&mut self, limit: u32)
        ensures
            final(self)@ == (ExtraV {
                flags: old(self)@.flags.insert(ExtraOption::ExtraMatchLimit.ordinal()),
                match_limit: limit as usize,
                ..old(self)@
            }),
    {
        self.flags.insert(ExtraOption::ExtraMatchLimit);
        self.match_limit_ = limit as usize;
    }

    /// Sets the recursion depth limit to `limit` instead of the default.
    pub fn set_match_limit_recursion(&mut self, limit: u32)
        ensures
            final(self)@ == (ExtraV {
                flags: old(self)@.flags.insert(ExtraOption::ExtraMatchLimitRecursion.ordinal()),
                match_limit_recursion: limit as usize,
                ..old(self)@
            }),
    {
        self.flags.insert(ExtraOption::ExtraMatchLimitRecursion);
        self.match_limit_recursion_ = limit as usize;
    }

    /// Unsets the mark field. The matcher will not record mark names.
    pub fn unset_mark(&mut self)
        ensures
            final(self)@ == (ExtraV {
                flags: old(self)@.flags.remove(ExtraOption::ExtraMark.ordinal()),
                ..old(self)@
            }),
    {
        self.flags.remove(&ExtraOption::ExtraMark);
    }

    /// Notes that the pattern has a start table.
    fn set_study_data(&mut self)
        ensures
            final(self)@ == (ExtraV {
                flags: old(self)@.flags.insert(ExtraOption::ExtraStudyData.ordinal()),
                ..old(self)@
            }),
    {
        self.flags.insert(ExtraOption::ExtraStudyData);
    }
}

/// A compiled regular expression.
#[derive(Debug)]
pub struct Pcre {
    program: Program,
    /// The bytes that a match can begin with, where the program tells.
    start: Option<Vec<bool>>,
    extra: Option<PcreExtra>,
    /// The number of the string that the last match marked.
    mark_: Option<usize>,
}

/// A compiled regular expression as plain values.
pub struct PcreV {
    pub program: ProgramV,
    /// The start table of the program. Every match uses it, whether the
    /// pattern was studied or not.
    pub start: Option<Seq<bool>>,
    pub extra: Option<ExtraV>,
    pub mark: Option<usize>,
}

impl PcreV {
    /// The invariant: the program is well formed, the start table is the one
    /// that studying the program gives, and the mark is a string of the
    /// program.
    pub open spec fn wf(self) -> bool {
        &&& self.program.wf()
        &&& self.start == study_spec(self.program)
        &&& self.start matches Some(t) ==> t.len() == SET_SIZE
        &&& self.mark matches Some(m) ==> m < self.program.strings.len()
    }

    /// The budgets of every attempt of a match: those that were set, else
    /// the defaults.
    pub open spec fn limits(self) -> Limits {
        match self.extra {
            Some(e) => Limits {
                depth: if e.uses(ExtraOption::ExtraMatchLimitRecursion) {
                    e.match_limit_recursion
                } else {
                    DEFAULT_MATCH_LIMIT_RECURSION
                },
                steps: if e.uses(ExtraOption::ExtraMatchLimit) {
                    e.match_limit
                } else {
                    DEFAULT_MATCH_LIMIT
                },
            },
            None => Limits { depth: DEFAULT_MATCH_LIMIT_RECURSION, steps: DEFAULT_MATCH_LIMIT },
        }
    }

    /// Whether matches record mark names.
    pub open spec fn marks(self) -> bool {
        self.extra matches Some(e) && e.uses(ExtraOption::ExtraMark)
    }

    /// The result of matching against `subject` from `start` on.
    pub open spec fn outcome(self, subject: Seq<u8>, start: usize, options: Set<nat>) -> Result<
        FoundV,
        ExecError,
    > {
        exec_spec(self.program, self.start, self.limits(), subject, start, options)
    }

    /// The pattern after a match with this result: it holds the mark that
    /// the match passed last, if marks are recorded and it passed one.
    pub open spec fn after(self, outcome: Result<FoundV, ExecError>) -> PcreV {
        PcreV {
            mark: match outcome {
                Ok(FoundV::Match { start, end, slots }) => if self.marks() {
                    slots.mark
                } else {
                    None
                },
                _ => None,
            },
            ..self
        }
    }

    /// The pattern after it was studied under `options`. An extra block
    /// that it has is kept, with its limits; one is made where the pattern
    /// has a start table or the options ask for a block in any case. The
    /// block notes whether there is a start table.
    pub open spec fn studied(self, options: Set<nat>) -> PcreV {
        PcreV {
            extra: match self.extra {
                Some(e) => Some(
                    ExtraV {
                        flags: if self.start is Some {
                            e.flags.insert(ExtraOption::ExtraStudyData.ordinal())
                        } else {
                            e.flags
                        },
                        ..e
                    },
                ),
                None => if self.start is Some {
                    Some(
                        ExtraV {
                            flags: Set::<nat>::empty().insert(ExtraOption::ExtraStudyData.ordinal()),
                            match_limit: 0,
                            match_limit_recursion: 0,
                        },
                    )
                } else if options.contains(StudyOption::StudyExtraNeeded.ordinal()) {
                    Some(
                        ExtraV {
                            flags: Set::<nat>::empty(),
                            match_limit: 0,
                            match_limit_recursion: 0,
                        },
                    )
                } else {
                    None
                },
            },
            ..self
        }
    }
}

impl View for Pcre {
    type V = PcreV;

    closed spec fn view(&self) -> PcreV {
        PcreV {
            program: self.program@,
            start: match self.start {
                Some(t) => Some(t@),
                None => None,
            },
            extra: match self.extra {
                Some(e) => Some(e@),
                None => None,
            },
            mark: self.mark_,
        }
    }
}

/// Whether `r` is the pattern that `pattern` compiles to under `options`,
/// as it stands before any match, or the error that refuses the pattern.
pub open spec fn compiles_to(
    r: Result<Pcre, CompilationError>,
    pattern: Seq<u8>,
    options: Set<nat>,
) -> bool {
    match r {
        Ok(re) => spec_compile(pattern, options) == Ok::<ProgramV, Fault>(re@.program) && re@.wf()
            && re@.extra is None && re@.mark is None,
        Err(e) => spec_compile(pattern, options) == Err::<ProgramV, Fault>(e@) && e@.at
            <= pattern.len(),
    }
}

impl Pcre {
    /// Compiles the given regular expression.
    pub fn compile(pattern: &str) -> (r: Result<Pcre, CompilationError>)
        ensures
            compiles_to(r, pattern.spec_bytes(), Set::empty()),
    {
        let no_options: EnumSet<CompileOption> = EnumSet::new();
        Pcre::compile_with_options(pattern, &no_options)
    }

    /// Compiles a regular expression using the given options.
    pub fn compile_with_options(pattern: &str, options: &EnumSet<CompileOption>) -> (r: Result<
        Pcre,
        CompilationError,
    >)
        ensures
            compiles_to(r, pattern.spec_bytes(), options@),
    {
        match pcre_compile(pattern.as_bytes(), options) {
            Err(fault) => Err(CompilationError::new(fault)),
            Ok(program) => {
                let start = pcre_study(&program);
                Ok(Pcre { program, start, extra: None, mark_: None })
            },
        }
    }

    /// Returns the number of capture groups in the regular expression,
    /// including one for each named capture group, and without group 0.
    pub fn capture_count(&self) -> (n: usize)
        ensures
            n == self@.program.group_count,
    {
        self.program.group_count
    }

    /// Returns the number of named capture groups in the regular
    /// expression.
    pub fn name_count(&self) -> (n: usize)
        ensures
            n == self@.program.names.len(),
    {
        self.program.names.len()
    }

    /// Enables the use of the mark field when matching the compiled regular
    /// expression. The pattern must have been studied and an extra block
    /// must have been created. The result says whether it was.
    pub fn enable_mark(&mut self) -> (enabled: bool)
        requires
            old(self)@.wf(),
        ensures
            enabled == old(self)@.extra is Some,
            final(self)@ == (PcreV {
                extra: match old(self)@.extra {
                    Some(e) => Some(
                        ExtraV { flags: e.flags.insert(ExtraOption::ExtraMark.ordinal()), ..e },
                    ),
                    None => None,
                },
                ..old(self)@
            }),
            final(self)@.wf(),
    {
        match &mut self.extra {
            None => false,
            Some(extra) => {
                extra.set_mark();
                true
            },
        }
    }

    /// Returns the extra block, if one has been created.
    pub fn extra(&mut self) -> (r: Option<&mut PcreExtra>)
        ensures
            match r {
                Some(e) => old(self)@.extra == Some(e@) && final(self)@ == (PcreV {
                    extra: Some(final(e)@),
                    ..old(self)@
                }),
                None => old(self)@.extra is None && final(self)@ == old(self)@,
            },
    {
        match &mut self.extra {
            None => None,
            Some(extra) => Some(extra),
        }
    }

    /// The program.
    pub fn program(&self) -> (p: &Program)
        ensures
            p@ == self@.program,
    {
        &self.program
    }

    /// The budgets of an attempt.
    fn limits(&self) -> (l: Limits)
        ensures
            l == self@.limits(),
    {
        match &self.extra {
            None => Limits { depth: DEFAULT_MATCH_LIMIT_RECURSION, steps: DEFAULT_MATCH_LIMIT },
            Some(e) => Limits {
                depth: match e.match_limit_recursion() {
                    Some(d) => d,
                    None => DEFAULT_MATCH_LIMIT_RECURSION,
                },
                steps: match e.match_limit() {
                    Some(s) => s,
                    None => DEFAULT_MATCH_LIMIT,
                },
            },
        }
    }

    /// The start table, if the program has one.
    fn table(&self) -> (t: Option<&Vec<bool>>)
        ensures
            table_view(t) == self@.start,
    {
        match &self.start {
            None => None,
            Some(t) => Some(t),
        }
    }

    /// Whether matches record mark names.
    fn marks(&self) -> (r: bool)
        ensures
            r == self@.marks(),
    {
        match &self.extra {
            None => false,
            Some(e) => e.flags.contains(&ExtraOption::ExtraMark),
        }
    }

    /// Matches the compiled regular expression against the bytes `subject`
    /// from `startoffset` on, and leaves the pattern as it is.
    pub fn try_exec(&self, subject: &[u8], startoffset: usize, options: &EnumSet<ExecOption>) -> (r:
        Result<Found, ExecError>)
        requires
            self@.wf(),
            startoffset <= subject@.len(),
        ensures
            exec_agrees(r, self@.outcome(subject@, startoffset, options@)),
            r matches Ok(found) ==> in_subject(
                found@,
                self@.program.group_count as int,
                subject@.len() as int,
            ) && (found matches Found::Match { start, end, slots } ==> startoffset <= start && (
            slots.mark matches Some(m) ==> m < self@.program.strings.len())),
    {
        let limits = self.limits();
        pcre_exec(&self.program, self.table(), &limits, subject, startoffset, options)
    }

    /// Matches the compiled regular expression against a given subject
    /// string `subject`. The result is `Ok(None)` if there is no match, and
    /// an error if a limit was exceeded before that was known.
    pub fn exec<'a>(&mut self, subject: &'a str) -> (r: Result<Option<Match<'a>>, ExecError>)
        requires
            old(self)@.wf(),
        ensures
            final(self)@ == old(self)@.after(old(self)@.outcome(subject.spec_bytes(), 0, Set::empty())),
            final(self)@.wf(),
            answers(
                r,
                old(self)@.outcome(subject.spec_bytes(), 0, Set::empty()),
                subject.spec_bytes(),
                old(self)@.program.group_count as int,
            ),
    {
        self.exec_from(subject, 0)
    }

    /// Matches the compiled regular expression against a given subject
    /// string `subject` starting at offset `startoffset` within the subject
    /// string.
    pub fn exec_from<'a>(&mut self, subject: &'a str, startoffset: usize) -> (r: Result<
        Option<Match<'a>>,
        ExecError,
    >)
        requires
            old(self)@.wf(),
            startoffset <= subject.spec_bytes().len(),
        ensures
            final(self)@ == old(self)@.after(
                old(self)@.outcome(subject.spec_bytes(), startoffset, Set::empty()),
            ),
            final(self)@.wf(),
            answers(
                r,
                old(self)@.outcome(subject.spec_bytes(), startoffset, Set::empty()),
                subject.spec_bytes(),
                old(self)@.program.group_count as int,
            ),
    {
        let no_options: EnumSet<ExecOption> = EnumSet::new();
        self.exec_from_with_options(subject, startoffset, &no_options)
    }

    /// Matches the compiled regular expression against a given subject
    /// string `subject` starting at offset `startoffset` within the subject
    /// string and using the given matching options `options`. The result is
    /// `Ok(None)` only if the pattern matches at no position that the search
    /// tries; where a limit is exceeded or the options disagree, it is the
    /// error.
    pub fn exec_from_with_options<'a>(
        &mut self,
        subject: &'a str,
        startoffset: usize,
        options: &EnumSet<ExecOption>,
    ) -> (r: Result<Option<Match<'a>>, ExecError>)
        requires
            old(self)@.wf(),
            startoffset <= subject.spec_bytes().len(),
        ensures
            final(self)@ == old(self)@.after(
                old(self)@.outcome(subject.spec_bytes(), startoffset, options@),
            ),
            final(self)@.wf(),
            answers(
                r,
                old(self)@.outcome(subject.spec_bytes(), startoffset, options@),
                subject.spec_bytes(),
                old(self)@.program.group_count as int,
            ),
    {
        let found = self.try_exec(subject.as_bytes(), startoffset, options);
        match found {
            Err(e) => {
                self.mark_ = None;
                Err(e)
            },
            Ok(found) => {
                self.mark_ = match &found {
                    Found::Match { start, end, slots } => if self.marks() {
                        slots.mark
                    } else {
                        None
                    },
                    _ => None,
                };
                Ok(present(subject, found, self.program.group_count))
            },
        }
    }

    /// The name of the last mark that the last match passed, as bytes.
    pub fn mark_bytes(&self) -> (r: Option<&[u8]>)
        requires
            self@.wf(),
        ensures
            match self@.mark {
                Some(m) => r matches Some(bytes) && bytes@ == self@.program.strings[m as int],
                None => r is None,
            },
    {
        match self.mark_ {
            None => None,
            Some(m) => Some(self.program.strings[m].as_slice()),
        }
    }

    /// The name of the last mark that the last match passed, if it is
    /// text.
    pub fn mark(&self) -> (r: Option<String>)
        requires
            self@.wf(),
        ensures
            is_text(
                r,
                match self@.mark {
                    Some(m) => spec_text_of(self@.program.strings[m as int]),
                    None => None,
                },
            ),
    {
        match self.mark_bytes() {
            None => None,
            Some(bytes) => utf8_to_string(bytes),
        }
    }

    /// Studies the regular expression. Matching uses the start table of a
    /// pattern in any case, so studying changes no result; it makes the
    /// extra block, which carries the limits and the mark switch. The
    /// result says whether the pattern has an extra block now.
    pub fn study(&mut self) -> (studied: bool)
        requires
            old(self)@.wf(),
        ensures
            studied == final(self)@.extra is Some,
            final(self)@ == old(self)@.studied(Set::empty()),
            final(self)@.wf(),
    {
        let no_options: EnumSet<StudyOption> = EnumSet::new();
        self.study_with_options(&no_options)
    }

    /// Studies the regular expression using the given options. The result
    /// says whether the pattern has an extra block now: it had one, it has
    /// a start table, or `StudyExtraNeeded` was passed.
    pub fn study_with_options(&mut self, options: &EnumSet<StudyOption>) -> (studied: bool)
        requires
            old(self)@.wf(),
        ensures
            studied == final(self)@.extra is Some,
            final(self)@ == old(self)@.studied(options@),
            final(self)@.wf(),
    {
        let has_table = self.start.is_some();
        let needed = options.contains(&StudyOption::StudyExtraNeeded);
        match &mut self.extra {
            Some(extra) => {
                if has_table {
                    extra.set_study_data();
                }
                true
            },
            None => {
                if has_table || needed {
                    let mut flags: EnumSet<ExtraOption> = EnumSet::new();
                    if has_table {
                        flags.insert(ExtraOption::ExtraStudyData);
                    }
                    self.extra = Some(
                        PcreExtra { flags, match_limit_: 0, match_limit_recursion_: 0 },
                    );
                    true
                } else {
                    false
                }
            },
        }
    }
}

} // verus!
