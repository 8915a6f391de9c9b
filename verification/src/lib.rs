//! A backtracking regular-expression engine with Perl-style syntax.
//!
//! A pattern is compiled into a program, a table of nodes; the matcher runs
//! the program against a subject and gives the offsets of the groups.
//!
//! # Patterns
//!
//! Literals; `.`; classes `[...]` with ranges, negation and the escapes
//! `\d \D \w \W \s \S`; the anchors `^ $ \A \z \Z \G \b \B`; groups `(...)`,
//! `(?:...)`, `(?<name>...)`, `(?P<name>...)`, `(?'name'...)`; alternation;
//! the quantifiers `* + ? {n} {n,} {n,m}`, greedy, lazy with `?` and
//! possessive with `+`; atomic groups `(?>...)`; back references `\1`,
//! `\k<name>`, `\k'name'`, `\k{name}` and `(?P=name)`; lookahead `(?=...)`
//! `(?!...)` and lookbehind `(?<=...)` `(?<!...)` of one fixed width; marks
//! `(*MARK:name)` and `(*:name)`; comments `(?#...)`; and the switches
//! `(?imsxUJ-imsxUJ)`, alone or before a `:`. A backslash and digits that
//! begin with no `0` are always a back reference.
//!
//! # Matching
//!
//! Everything counts bytes: a pattern is read byte by byte, `.` and a class
//! match one byte, and offsets are byte offsets into the subject. Letters,
//! digits and white space are the ASCII ones. The leftmost match wins; at
//! one position alternatives are tried from left to right, a greedy
//! quantifier tries more rounds first and a lazy one fewer. A group that
//! took no part in a match has both offsets `usize::MAX`.
//!
//! Two limits guard a match, and every attempt, that is every position at
//! which the search tries the pattern, has both to itself. The match limit
//! bounds the number of nodes that an attempt enters, the recursion limit
//! how deep it nests. A call in which an attempt exceeds one ends with
//! `ExecError::MatchLimitExceeded`, never with the answer of no match. The
//! matcher keeps its own stack, so depth costs memory, not machine stack.
//!
//! A pattern knows from its compilation with which bytes a match can begin,
//! where it can tell, and every search passes over the positions with other
//! bytes. Studying a pattern therefore changes no result; it makes the extra
//! block that carries the limits and the mark switch.
//!
//! # What is proved
//!
//! The parser is proved to read a pattern as the grammar of the module
//! `grammar` says, and the matcher to find what the functions of the module
//! `matcher` say. The modules `language`, `sound`, `budget` and `laws` state
//! what follows: every match is a stretch of the subject that the pattern
//! describes and lies within the subject; studying changes no result; larger
//! limits, and the start table, change no result that is reached within the
//! limits; the options that refuse empty matches, ask for partial ones or
//! anchor a match do what their names say.
//!
//! # Options
//!
//! `AutoCallout`, `BsrAnyCRLF`, `BsrUnicode`, `JavaScriptCompat` and `Ucp`
//! and their counterparts among the options of a match are accepted and
//! change nothing, as do the three study options that ask for a just-in-time
//! compiler: there is none.

pub mod budget;
pub mod bytes;
pub mod class;
pub mod compile;
pub mod error;
pub mod exec;
pub mod grammar;
pub mod iteration;
pub mod language;
pub mod laws;
pub mod lower;
pub mod machine;
pub mod matcher;
pub mod matches;
pub mod names;
pub mod options;
pub mod parser;
pub mod pattern;
pub mod program;
pub mod scan;
pub mod search;
pub mod sound;
pub mod study;
pub mod syntax;
pub mod text;
pub mod version;

pub use error::CompilationError;
pub use exec::ExecError;
pub use iteration::MatchIterator;
pub use matches::Match;
pub use names::NameEntry;
pub use options::{
    CLike, CompileOption, EnumSet, ExecNoStartOptimize, ExecOption, ExecPartial, ExtraOption,
    StudyOption,
};
pub use pattern::{Pcre, PcreExtra};
pub use syntax::ErrorKind;
pub use version::{pcre_version, Version};
