//! Compilation: from a pattern and a set of options to a program.

use crate::bytes::Newline;
use crate::grammar::spec_parse;
use crate::lower::{lower, spec_lower, Frame};
use crate::options::{CLike, CompileOption, EnumSet};
use crate::parser::parse;
use crate::program::{Program, ProgramV};
use crate::syntax::{ErrorKind, Fault, Mode};
use vstd::prelude::*;

verus! {

/// Whether a set of ordinals holds the option.
pub open spec fn has(options: Set<nat>, option: CompileOption) -> bool {
    options.contains(option.ordinal())
}

/// The mode in which the options have a pattern read.
pub open spec fn spec_mode(options: Set<nat>) -> Mode {
    Mode {
        caseless: has(options, CompileOption::Caseless),
        multiline: has(options, CompileOption::Multiline),
        dotall: has(options, CompileOption::DotAll),
        extended: has(options, CompileOption::Extended),
        ungreedy: has(options, CompileOption::Ungreedy),
        dupnames: has(options, CompileOption::DupNames),
        no_auto_capture: has(options, CompileOption::NoAutoCapture),
        dollar_endonly: has(options, CompileOption::DollarEndOnly),
        extra: has(options, CompileOption::Extra),
    }
}

/// The newline convention that three bits spell, as the masks of the
/// newline options combine them: none set is the default, a line feed.
pub open spec fn spec_newline(cr: bool, lf: bool, any: bool) -> Option<Newline> {
    if any {
        if lf {
            None
        } else if cr {
            Some(Newline::AnyCrLf)
        } else {
            Some(Newline::Any)
        }
    } else if cr && lf {
        Some(Newline::CrLf)
    } else if cr {
        Some(Newline::Cr)
    } else {
        Some(Newline::Lf)
    }
}

pub fn newline_of(cr: bool, lf: bool, any: bool) -> (r: Option<Newline>)
    ensures
        r == spec_newline(cr, lf, any),
{
    if any {
        if lf {
            None
        } else if cr {
            Some(Newline::AnyCrLf)
        } else {
            Some(Newline::Any)
        }
    } else if cr && lf {
        Some(Newline::CrLf)
    } else if cr {
        Some(Newline::Cr)
    } else {
        Some(Newline::Lf)
    }
}

/// The newline convention that the options ask for, if they agree on one.
pub open spec fn spec_compile_newline(options: Set<nat>) -> Option<Newline> {
    spec_newline(
        has(options, CompileOption::NewlineCR) || has(options, CompileOption::NewlineCRLF) || has(
            options,
            CompileOption::NewlineAnyCRLF,
        ),
        has(options, CompileOption::NewlineLF) || has(options, CompileOption::NewlineCRLF),
        has(options, CompileOption::NewlineAny) || has(options, CompileOption::NewlineAnyCRLF),
    )
}

/// What the options say of the pattern as a whole, if their newline options
/// agree.
pub open spec fn spec_frame(options: Set<nat>) -> Option<Frame> {
    match spec_compile_newline(options) {
        None => None,
        Some(newline) => Some(
            Frame {
                newline,
                anchored: has(options, CompileOption::Anchored),
                first_line: has(options, CompileOption::FirstLine),
            },
        ),
    }
}

pub fn mode_of(options: &EnumSet<CompileOption>) -> (m: Mode)
    ensures
        m == spec_mode(options@),
{
    Mode {
        caseless: options.contains(&CompileOption::Caseless),
        multiline: options.contains(&CompileOption::Multiline),
        dotall: options.contains(&CompileOption::DotAll),
        extended: options.contains(&CompileOption::Extended),
        ungreedy: options.contains(&CompileOption::Ungreedy),
        dupnames: options.contains(&CompileOption::DupNames),
        no_auto_capture: options.contains(&CompileOption::NoAutoCapture),
        dollar_endonly: options.contains(&CompileOption::DollarEndOnly),
        extra: options.contains(&CompileOption::Extra),
    }
}

pub fn frame_of(options: &EnumSet<CompileOption>) -> (f: Option<Frame>)
    ensures
        f == spec_frame(options@),
{
    let cr = options.contains(&CompileOption::NewlineCR) || options.contains(
        &CompileOption::NewlineCRLF,
    ) || options.contains(&CompileOption::NewlineAnyCRLF);
    let lf = options.contains(&CompileOption::NewlineLF) || options.contains(
        &CompileOption::NewlineCRLF,
    );
    let any = options.contains(&CompileOption::NewlineAny) || options.contains(
        &CompileOption::NewlineAnyCRLF,
    );
    match newline_of(cr, lf, any) {
        None => None,
        Some(newline) => Some(
            Frame {
                newline,
                anchored: options.contains(&CompileOption::Anchored),
                first_line: options.contains(&CompileOption::FirstLine),
            },
        ),
    }
}

/// The program that the pattern `p` compiles to under `options`, or the
/// fault that refuses it. Options whose newline conventions disagree are
/// refused at offset 0; then the pattern is read; then its nodes are
/// checked in the order in which they were read.
pub open spec fn spec_compile(p: Seq<u8>, options: Set<nat>) -> Result<ProgramV, Fault> {
    match spec_frame(options) {
        None => Err(Fault { kind: ErrorKind::InconsistentNewline, at: 0 }),
        Some(frame) => match spec_parse(p, spec_mode(options)) {
            Err(f) => Err(f),
            Ok(read) => spec_lower(read.b, read.node->0, frame),
        },
    }
}

/// Compiles the pattern `p` under `options`.
pub fn pcre_compile(p: &[u8], options: &EnumSet<CompileOption>) -> (r: Result<Program, Fault>)
    ensures
        match r {
            Ok(prog) => spec_compile(p@, options@) == Ok::<ProgramV, Fault>(prog@) && prog.wf(),
            Err(f) => spec_compile(p@, options@) == Err::<ProgramV, Fault>(f) && f.at <= p.len(),
        },
{
    let frame = match frame_of(options) {
        None => {
            return Err(Fault { kind: ErrorKind::InconsistentNewline, at: 0 });
        },
        Some(frame) => frame,
    };
    match parse(p, mode_of(options)) {
        Err(f) => Err(f),
        Ok(read) => {
            let root = match read.node {
                Some(n) => n,
                None => 0,
            };
            lower(read.b, root, frame)
        },
    }
}

} // verus!
