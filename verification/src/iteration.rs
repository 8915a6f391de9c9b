//! Iterating over the matches within a subject.

use crate::exec::ExecError;
use crate::matches::{answers, present, Match};
use crate::options::{EnumSet, ExecOption};
use crate::pattern::{Pcre, PcreV};
use crate::search::{Found, FoundV};
use vstd::prelude::*;
use vstd::string::StringSliceAdditionalSpecFns;

verus! {

/// Iterator type for iterating matches within a subject string.
#[derive(Debug)]
pub struct MatchIterator<'a, 'p> {
    re: &'p Pcre,
    subject: &'a str,
    offset: usize,
    options: EnumSet<ExecOption>,
    done: bool,
    error: Option<ExecError>,
}

/// An iterator as plain values.
pub struct IterV {
    pub re: PcreV,
    pub subject: Seq<u8>,
    /// The offset at which the next search begins.
    pub offset: usize,
    pub options: Set<nat>,
    /// Whether the iterator is exhausted.
    pub done: bool,
    /// Why the iterator ended, if it was for an error.
    pub error: Option<ExecError>,
}

impl IterV {
    pub open spec fn wf(self) -> bool {
        self.re.wf() && self.offset <= self.subject.len() <= usize::MAX
    }

    /// What the next call finds: no match once the iterator is exhausted,
    /// else the result of one match from the offset on.
    pub open spec fn found(self) -> Result<FoundV, ExecError> {
        if self.done {
            Ok(FoundV::NoMatch)
        } else {
            self.re.outcome(self.subject, self.offset, self.options)
        }
    }

    /// The iterator after the next call. After a match the search goes on
    /// at its end, or one byte later if the match is empty; an empty match
    /// at the end of the subject, a partial match, no match or an error
    /// exhaust the iterator.
    pub open spec fn advanced(self) -> IterV {
        if self.done {
            self
        } else {
            match self.re.outcome(self.subject, self.offset, self.options) {
                Ok(FoundV::Match { start, end, slots }) => if end > start {
                    IterV { offset: end, ..self }
                } else if end < self.subject.len() {
                    IterV { offset: (end + 1) as usize, ..self }
                } else {
                    IterV { done: true, ..self }
                },
                Ok(_) => IterV { done: true, ..self },
                Err(e) => IterV { done: true, error: Some(e), ..self },
            }
        }
    }
}

impl<'a, 'p> View for MatchIterator<'a, 'p> {
    type V = IterV;

    closed spec fn view(&self) -> IterV {
        IterV {
            re: self.re@,
            subject: self.subject.spec_bytes(),
            offset: self.offset,
            options: self.options@,
            done: self.done,
            error: self.error,
        }
    }
}

impl<'a, 'p> MatchIterator<'a, 'p> {
    /// An iterator over the matches of `re` in `subject`, from its start.
    pub fn new(re: &'p Pcre, subject: &'a str, options: &EnumSet<ExecOption>) -> (it: Self)
        requires
            re@.wf(),
        ensures
            it@ == (IterV {
                re: re@,
                subject: subject.spec_bytes(),
                offset: 0,
                options: options@,
                done: false,
                error: None,
            }),
            it@.wf(),
    {
        let len = subject.as_bytes().len();
        MatchIterator { re, subject, offset: 0, options: options.copy(), done: false, error: None }
    }

    /// Gets the next match. The result is `Ok(None)` once there is no
    /// further match, and the error if a limit was exceeded; after either the
    /// iterator is exhausted.
    pub fn next(&mut self) -> (r: Result<Option<Match<'a>>, ExecError>)
        requires
            old(self)@.wf(),
        ensures
            final(self)@ == old(self)@.advanced(),
            final(self)@.wf(),
            answers(
                r,
                old(self)@.found(),
                old(self)@.subject,
                old(self)@.re.program.group_count as int,
            ),
            !old(self)@.done && !final(self)@.done ==> final(self)@.offset > old(self)@.offset,
    {
        if self.done {
            return Ok(None);
        }
        let bytes = self.subject.as_bytes();
        let found = self.re.try_exec(bytes, self.offset, &self.options);
        match found {
            Err(e) => {
                self.done = true;
                self.error = Some(e);
                Err(e)
            },
            Ok(found) => {
                match &found {
                    Found::Match { start, end, slots } => {
                        if *end > *start {
                            self.offset = *end;
                        } else if *end < bytes.len() {
                            self.offset = *end + 1;
                        } else {
                            self.done = true;
                        }
                    },
                    _ => {
                        self.done = true;
                    },
                }
                Ok(present(self.subject, found, self.re.capture_count()))
            },
        }
    }

    /// A second iterator that goes on from where this one stands.
    pub fn clone(&self) -> (it: Self)
        ensures
            it@ == self@,
    {
        MatchIterator {
            re: self.re,
            subject: self.subject,
            offset: self.offset,
            options: self.options.copy(),
            done: self.done,
            error: self.error,
        }
    }

    /// Why the iterator ended, if it was for an error.
    pub fn error(&self) -> (e: Option<ExecError>)
        ensures
            e == self@.error,
    {
        self.error
    }
}

impl Pcre {
    /// Creates a `MatchIterator` for iterating through matches within the
    /// given subject string `subject`.
    pub fn matches<'a, 'p>(&'p self, subject: &'a str) -> (it: MatchIterator<'a, 'p>)
        requires
            self@.wf(),
        ensures
            it@ == (IterV {
                re: self@,
                subject: subject.spec_bytes(),
                offset: 0,
                options: Set::empty(),
                done: false,
                error: None,
            }),
            it@.wf(),
    {
        let no_options: EnumSet<ExecOption> = EnumSet::new();
        MatchIterator::new(self, subject, &no_options)
    }

    /// Creates a `MatchIterator` for iterating through matches within the
    /// given subject string `subject` using the given matching options
    /// `options`.
    pub fn matches_with_options<'a, 'p>(
        &'p self,
        subject: &'a str,
        options: &EnumSet<ExecOption>,
    ) -> (it: MatchIterator<'a, 'p>)
        requires
            self@.wf(),
        ensures
            it@ == (IterV {
                re: self@,
                subject: subject.spec_bytes(),
                offset: 0,
                options: options@,
                done: false,
                error: None,
            }),
            it@.wf(),
    {
        MatchIterator::new(self, subject, options)
    }
}

} // verus!
