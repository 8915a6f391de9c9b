use pcre::search::Found;
use pcre::{
    CompileOption, EnumSet, ErrorKind, ExecError, ExecOption, Match, Pcre, StudyOption,
};

fn compile(pattern: &str, options: &[CompileOption]) -> Pcre {
    let mut set: EnumSet<CompileOption> = EnumSet::new();
    for o in options {
        set.insert(*o);
    }
    Pcre::compile_with_options(pattern, &set).unwrap()
}

fn fails(pattern: &str, options: &[CompileOption]) -> (ErrorKind, usize) {
    let mut set: EnumSet<CompileOption> = EnumSet::new();
    for o in options {
        set.insert(*o);
    }
    let e = Pcre::compile_with_options(pattern, &set).unwrap_err();
    (e.kind(), e.offset())
}

fn span(pattern: &str, subject: &str) -> Option<(usize, usize)> {
    let mut re = Pcre::compile(pattern).unwrap();
    re.exec(subject).unwrap().map(|m| (m.group_start(0), m.group_end(0)))
}

fn span_with(pattern: &str, options: &[CompileOption], subject: &str) -> Option<(usize, usize)> {
    let mut re = compile(pattern, options);
    re.exec(subject).unwrap().map(|m| (m.group_start(0), m.group_end(0)))
}

fn try_with<'a>(
    re: &mut Pcre,
    subject: &'a str,
    start: usize,
    options: &[ExecOption],
) -> Result<Option<Match<'a>>, ExecError> {
    let mut set: EnumSet<ExecOption> = EnumSet::new();
    for o in options {
        set.insert(*o);
    }
    re.exec_from_with_options(subject, start, &set)
}

fn exec_with<'a>(re: &mut Pcre, subject: &'a str, start: usize, options: &[ExecOption]) -> Option<Match<'a>> {
    try_with(re, subject, start, options).unwrap()
}

#[test]
fn literal_is_found_leftmost() {
    assert_eq!(span("abc", "xxabcabc"), Some((2, 5)));
    assert_eq!(span("abc", "ab"), None);
    assert_eq!(span("", "abc"), Some((0, 0)));
}

#[test]
fn dot_matches_any_byte_but_newline() {
    assert_eq!(span("a.c", "a\nc abc"), Some((4, 7)));
    assert_eq!(span_with("a.c", &[CompileOption::DotAll], "a\nc abc"), Some((0, 3)));
}

#[test]
fn alternation_prefers_the_left_branch() {
    assert_eq!(span("ab|abc", "abc"), Some((0, 2)));
    assert_eq!(span("abc|ab", "abc"), Some((0, 3)));
    assert_eq!(span("x|y|z", "--z"), Some((2, 3)));
}

#[test]
fn greedy_lazy_and_possessive_quantifiers() {
    assert_eq!(span("a+", "caaat"), Some((1, 4)));
    assert_eq!(span("a+?", "caaat"), Some((1, 2)));
    assert_eq!(span("a*", "baaa"), Some((0, 0)));
    assert_eq!(span("<.*>", "<a><b>"), Some((0, 6)));
    assert_eq!(span("<.*?>", "<a><b>"), Some((0, 3)));
    assert_eq!(span("a++a", "aaaa"), None);
    assert_eq!(span("a+a", "aaaa"), Some((0, 4)));
    assert_eq!(span("ab?c", "ac abc"), Some((0, 2)));
}

#[test]
fn counted_repetition() {
    assert_eq!(span("a{3}", "aa aaaa"), Some((3, 6)));
    assert_eq!(span("a{2,}", "a aaaaa"), Some((2, 7)));
    assert_eq!(span("a{2,3}", "aaaaa"), Some((0, 3)));
    assert_eq!(span("a{2,3}?", "aaaaa"), Some((0, 2)));
    assert_eq!(span("a{,3}", "a{,3}"), Some((0, 5)));
    assert_eq!(span("a{x", "a{x"), Some((0, 3)));
}

#[test]
fn ungreedy_option_turns_greed_around() {
    assert_eq!(span_with("a+", &[CompileOption::Ungreedy], "aaa"), Some((0, 1)));
    assert_eq!(span_with("a+?", &[CompileOption::Ungreedy], "aaa"), Some((0, 3)));
}

#[test]
fn character_classes() {
    assert_eq!(span("[abc]+", "xxcabx"), Some((2, 5)));
    assert_eq!(span("[^abc]+", "abxyc"), Some((2, 4)));
    assert_eq!(span("[a-f0-9]+", "zz1fa9g"), Some((2, 6)));
    assert_eq!(span("[]a]+", "x]a]"), Some((1, 4)));
    assert_eq!(span("[a-]+", "x-a-"), Some((1, 4)));
    assert_eq!(span("[\\d\\s]+", "a1 2b"), Some((1, 4)));
    assert_eq!(span("[\\]]", "a]"), Some((1, 2)));
    assert_eq!(span("[\\x41-\\x43]+", "xABCD"), Some((1, 4)));
}

#[test]
fn escapes_for_classes_and_bytes() {
    assert_eq!(span("\\d+", "ab123c"), Some((2, 5)));
    assert_eq!(span("\\D+", "12ab3"), Some((2, 4)));
    assert_eq!(span("\\w+", "  a_1- "), Some((2, 5)));
    assert_eq!(span("\\W+", "ab  -c"), Some((2, 5)));
    assert_eq!(span("\\s+", "a \t\nb"), Some((1, 4)));
    assert_eq!(span("\\S+", "  ab "), Some((2, 4)));
    assert_eq!(span("a\\tb", "a\tb"), Some((0, 3)));
    assert_eq!(span("\\x41\\x2a", "A*"), Some((0, 2)));
    assert_eq!(fails("\\101", &[]), (ErrorKind::UndefinedGroup, 0));
    assert_eq!(span("\\0101", "A"), None);
    assert_eq!(span("\\061", "1"), Some((0, 1)));
    assert_eq!(span("\\.\\*\\+", ".*+"), Some((0, 3)));
    assert_eq!(span("a\\e", "a\x1b"), Some((0, 2)));
}

#[test]
fn caseless_matching() {
    assert_eq!(span_with("abc", &[CompileOption::Caseless], "xABc"), Some((1, 4)));
    assert_eq!(span_with("[a-c]+", &[CompileOption::Caseless], "xABc"), Some((1, 4)));
    assert_eq!(span("(?i)abc", "ABC"), Some((0, 3)));
    assert_eq!(span("a(?i)b", "aB"), Some((0, 2)));
    assert_eq!(span("a(?i)b", "AB"), None);
    assert_eq!(span("(?i:a)b", "Ab"), Some((0, 2)));
    assert_eq!(span("(?i:a)b", "AB"), None);
    assert_eq!(span("(?i)a(?-i)b", "AB"), None);
    assert_eq!(span("(a(?i)b)c", "aBC"), None);
    assert_eq!(span("(a(?i)b)c", "aBc"), Some((0, 3)));
}

#[test]
fn anchors() {
    assert_eq!(span("^abc", "abcabc"), Some((0, 3)));
    assert_eq!(span("^bc", "abc"), None);
    assert_eq!(span("abc$", "abcabc"), Some((3, 6)));
    assert_eq!(span("abc$", "abc\n"), Some((0, 3)));
    assert_eq!(span_with("abc$", &[CompileOption::DollarEndOnly], "abc\n"), None);
    assert_eq!(span("^b", "a\nb"), None);
    assert_eq!(span_with("^b", &[CompileOption::Multiline], "a\nb"), Some((2, 3)));
    assert_eq!(span_with("a$", &[CompileOption::Multiline], "a\nb"), Some((0, 1)));
    assert_eq!(span_with("^", &[CompileOption::Multiline], "a\n"), Some((0, 0)));
    assert_eq!(span("\\Aab", "ab"), Some((0, 2)));
    assert_eq!(span("b\\z", "ab\n"), None);
    assert_eq!(span("b\\Z", "ab\n"), Some((1, 2)));
    assert_eq!(span("\\bfoo\\b", "a foo."), Some((2, 5)));
    assert_eq!(span("\\Boo", "foo oo"), Some((1, 3)));
}

#[test]
fn newline_conventions() {
    assert_eq!(
        span_with("^b", &[CompileOption::Multiline, CompileOption::NewlineCR], "a\rb"),
        Some((2, 3))
    );
    assert_eq!(span_with("^b", &[CompileOption::Multiline, CompileOption::NewlineCR], "a\nb"), None);
    assert_eq!(
        span_with("^b", &[CompileOption::Multiline, CompileOption::NewlineCRLF], "a\r\nb"),
        Some((3, 4))
    );
    assert_eq!(
        span_with("^b", &[CompileOption::Multiline, CompileOption::NewlineCRLF], "a\nb"),
        None
    );
    assert_eq!(
        span_with("^b", &[CompileOption::Multiline, CompileOption::NewlineAnyCRLF], "a\rb"),
        Some((2, 3))
    );
    assert_eq!(
        span_with("^b", &[CompileOption::Multiline, CompileOption::NewlineAny], "a\x0bb"),
        Some((2, 3))
    );
    assert_eq!(
        span_with("^b", &[CompileOption::Multiline, CompileOption::NewlineAnyCRLF], "a\x0bb"),
        None
    );
    assert_eq!(span_with("a.b", &[CompileOption::NewlineCR], "a\nb"), Some((0, 3)));
    assert_eq!(span_with("a.b", &[CompileOption::NewlineCR], "a\rb"), None);
    // Two newline options together spell a third.
    assert_eq!(
        span_with(
            "^b",
            &[CompileOption::Multiline, CompileOption::NewlineCR, CompileOption::NewlineLF],
            "a\r\nb"
        ),
        Some((3, 4))
    );
    assert_eq!(
        fails("a", &[CompileOption::NewlineAny, CompileOption::NewlineLF]),
        (ErrorKind::InconsistentNewline, 0)
    );
}

#[test]
fn groups_capture_offsets() {
    let mut re = Pcre::compile("(a+)(b)?(c)").unwrap();
    assert_eq!(re.capture_count(), 3);
    let m = re.exec("xaac").unwrap().unwrap();
    assert_eq!((m.group_start(0), m.group_end(0)), (1, 4));
    assert_eq!((m.group_start(1), m.group_end(1)), (1, 3));
    assert_eq!((m.group_start(2), m.group_end(2)), (usize::MAX, usize::MAX));
    assert_eq!(m.group_len(2), 0);
    assert_eq!((m.group_start(3), m.group_end(3)), (3, 4));
    assert_eq!(m.group(1), "aa");
    assert_eq!(m.group(3), "c");
    assert_eq!(m.group_bytes(3), b"c");
    assert_eq!(m.string_count(), 4);
    assert!(!m.is_partial());
}

#[test]
fn string_count_stops_at_the_last_group_that_took_part() {
    let mut re = Pcre::compile("(a)|(b)|(c)").unwrap();
    assert_eq!(re.exec("a").unwrap().unwrap().string_count(), 2);
    assert_eq!(re.exec("b").unwrap().unwrap().string_count(), 3);
    assert_eq!(re.exec("c").unwrap().unwrap().string_count(), 4);
    let mut plain = Pcre::compile("abc").unwrap();
    assert_eq!(plain.exec("abc").unwrap().unwrap().string_count(), 1);
}

#[test]
fn group_in_a_repetition_keeps_its_last_round() {
    let mut re = Pcre::compile("(?:(a)|b)+").unwrap();
    let m = re.exec("aab").unwrap().unwrap();
    assert_eq!((m.group_start(0), m.group_end(0)), (0, 3));
    assert_eq!((m.group_start(1), m.group_end(1)), (1, 2));
}

#[test]
fn no_auto_capture_leaves_only_named_groups() {
    let mut re = compile("(a)(?<n>b)(c)", &[CompileOption::NoAutoCapture]);
    assert_eq!(re.capture_count(), 1);
    let m = re.exec("abc").unwrap().unwrap();
    assert_eq!(m.group(1), "b");
}

#[test]
fn back_references() {
    assert_eq!(span("(a+)b\\1", "aabaa"), Some((0, 5)));
    assert_eq!(span("(a+)b\\1", "aaba"), Some((1, 4)));
    assert_eq!(span("(a)|b\\1", "b"), None);
    assert_eq!(span("(?i)(a)\\1", "aA"), Some((0, 2)));
    assert_eq!(span("(a)\\1", "aA"), None);
    assert_eq!(span("(?<x>ab)-\\k<x>", "ab-ab"), Some((0, 5)));
    assert_eq!(span("(?P<x>ab)-(?P=x)", "ab-ab"), Some((0, 5)));
    assert_eq!(span("(?'x'ab)-\\k'x'", "ab-ab"), Some((0, 5)));
    assert_eq!(span("(?<x>ab)-\\k{x}", "ab-ab"), Some((0, 5)));
    assert_eq!(span("\\1(a)", "aa"), None);
}

#[test]
fn lookahead_and_lookbehind() {
    assert_eq!(span("a(?=b)", "acab"), Some((2, 3)));
    assert_eq!(span("a(?!b)", "abac"), Some((2, 3)));
    assert_eq!(span("(?<=x)a", "axa"), Some((2, 3)));
    assert_eq!(span("(?<!x)a", "xaa"), Some((2, 3)));
    assert_eq!(span("(?<=ab|cd)e", "abe"), Some((2, 3)));
    assert_eq!(span("(?<=a{2})b", "ab aab"), Some((5, 6)));
    let mut re = Pcre::compile("(?=(a+))a").unwrap();
    let m = re.exec("baaa").unwrap().unwrap();
    assert_eq!((m.group_start(0), m.group_end(0)), (1, 2));
    assert_eq!((m.group_start(1), m.group_end(1)), (1, 4));
}

#[test]
fn atomic_groups_do_not_give_back() {
    assert_eq!(span("(?>a+)a", "aaaa"), None);
    assert_eq!(span("(?>a+)b", "aaab"), Some((0, 4)));
    assert_eq!(span("(?>ab|a)c", "ac"), Some((0, 2)));
    assert_eq!(span("(?>a|ab)c", "abc"), None);
}

#[test]
fn comments_and_extended_mode() {
    assert_eq!(span("a(?#comment)b", "ab"), Some((0, 2)));
    assert_eq!(span_with("a b # a comment\n c", &[CompileOption::Extended], "abc"), Some((0, 3)));
    assert_eq!(span_with("a\\ b", &[CompileOption::Extended], "a b"), Some((0, 3)));
    assert_eq!(span_with("a[ ]b", &[CompileOption::Extended], "a b"), Some((0, 3)));
    assert_eq!(span("(?x) a b ", "ab"), Some((0, 2)));
}

#[test]
fn anchored_and_first_line_options() {
    assert_eq!(span_with("b", &[CompileOption::Anchored], "ab"), None);
    assert_eq!(span_with("a", &[CompileOption::Anchored], "ab"), Some((0, 1)));
    assert_eq!(span_with("b", &[CompileOption::FirstLine], "a\nb"), None);
    assert_eq!(span_with("\\nb", &[CompileOption::FirstLine], "a\nb"), Some((1, 3)));
    assert_eq!(span_with("a", &[CompileOption::FirstLine], "xa\nb"), Some((1, 2)));
}

#[test]
fn exec_options() {
    let mut re = Pcre::compile("b").unwrap();
    assert!(exec_with(&mut re, "ab", 0, &[ExecOption::ExecAnchored]).is_none());
    assert!(exec_with(&mut re, "ab", 1, &[ExecOption::ExecAnchored]).is_some());

    let mut bol = Pcre::compile("^a").unwrap();
    assert!(exec_with(&mut bol, "a", 0, &[]).is_some());
    assert!(exec_with(&mut bol, "a", 0, &[ExecOption::ExecNotBol]).is_none());

    let mut eol = Pcre::compile("a$").unwrap();
    assert!(exec_with(&mut eol, "a", 0, &[]).is_some());
    assert!(exec_with(&mut eol, "a", 0, &[ExecOption::ExecNotEol]).is_none());
    assert!(exec_with(&mut eol, "a\n", 0, &[ExecOption::ExecNotEol]).is_none());

    let mut star = Pcre::compile("a*").unwrap();
    let m = exec_with(&mut star, "baa", 0, &[ExecOption::ExecNotEmpty]).unwrap();
    assert_eq!((m.group_start(0), m.group_end(0)), (1, 3));
    let m = exec_with(&mut star, "baa", 0, &[]).unwrap();
    assert_eq!((m.group_start(0), m.group_end(0)), (0, 0));
    assert!(exec_with(&mut star, "bbb", 0, &[ExecOption::ExecNotEmpty]).is_none());
    let m = exec_with(&mut star, "bbb", 0, &[ExecOption::ExecNotEmptyAtStart]).unwrap();
    assert_eq!((m.group_start(0), m.group_end(0)), (1, 1));

    let mut g = Pcre::compile("\\Ga").unwrap();
    assert!(exec_with(&mut g, "ba", 1, &[]).is_some());
    assert!(exec_with(&mut g, "bba", 1, &[]).is_none());
}

#[test]
fn exec_newline_options_override_the_pattern() {
    let mut re = compile("^b", &[CompileOption::Multiline]);
    assert!(exec_with(&mut re, "a\rb", 0, &[]).is_none());
    assert!(exec_with(&mut re, "a\rb", 0, &[ExecOption::ExecNewlineCR]).is_some());
    assert!(exec_with(&mut re, "a\nb", 0, &[ExecOption::ExecNewlineCR]).is_none());
    assert_eq!(
        try_with(&mut re, "a\nb", 0, &[ExecOption::ExecNewlineAny, ExecOption::ExecNewlineLF])
            .unwrap_err(),
        ExecError::BadNewline
    );
    assert!(exec_with(&mut re, "a\nb", 0, &[]).is_some());
}

#[test]
fn partial_matching() {
    let mut re = Pcre::compile("abcd").unwrap();
    assert!(exec_with(&mut re, "xxab", 0, &[]).is_none());
    let m = exec_with(&mut re, "xxab", 0, &[ExecOption::ExecPartialSoft]).unwrap();
    assert!(m.is_partial());
    assert_eq!((m.group_start(0), m.group_end(0)), (2, 4));
    assert_eq!(m.string_count(), 1);
    assert!(exec_with(&mut re, "xxay", 0, &[ExecOption::ExecPartialSoft]).is_none());

    // A complete match is preferred by the soft mode, not by the hard one.
    let mut alt = Pcre::compile("abc|b").unwrap();
    let m = exec_with(&mut alt, "ab", 0, &[ExecOption::ExecPartialSoft]).unwrap();
    assert!(!m.is_partial());
    assert_eq!((m.group_start(0), m.group_end(0)), (1, 2));
    let m = exec_with(&mut alt, "ab", 0, &[ExecOption::ExecPartialHard]).unwrap();
    assert!(m.is_partial());
    assert_eq!((m.group_start(0), m.group_end(0)), (0, 2));
}

#[test]
fn match_limit_is_reported() {
    let mut re = Pcre::compile("(?:a|b)*c").unwrap();
    let mut opts: EnumSet<StudyOption> = EnumSet::new();
    opts.insert(StudyOption::StudyExtraNeeded);
    assert!(re.study_with_options(&opts));
    assert_eq!(re.extra().unwrap().match_limit(), None);
    re.extra().unwrap().set_match_limit(10);
    assert_eq!(re.extra().unwrap().match_limit(), Some(10));
    assert_eq!(re.exec("abababababababababc").unwrap_err(), ExecError::MatchLimitExceeded);
    re.extra().unwrap().set_match_limit(1000);
    assert!(re.exec("abababababababababc").unwrap().is_some());
    re.extra().unwrap().set_match_limit_recursion(5);
    assert_eq!(re.extra().unwrap().match_limit_recursion(), Some(5));
    assert_eq!(re.exec("abababababababababc").unwrap_err(), ExecError::MatchLimitExceeded);
    // A subject without a match is told from one that costs too much.
    re.extra().unwrap().set_match_limit_recursion(1000);
    assert!(re.exec("abab").unwrap().is_none());
}

#[test]
fn long_subjects_need_no_deep_stack() {
    let mut subject = "ab".repeat(200_000);
    subject.push('c');
    let mut re = Pcre::compile("(?:a|b)*c").unwrap();
    let m = re.exec(&subject).unwrap().unwrap();
    assert_eq!((m.group_start(0), m.group_end(0)), (0, 400_001));
    let mut dot = Pcre::compile("^.*c$").unwrap();
    let m = dot.exec(&subject).unwrap().unwrap();
    assert_eq!((m.group_start(0), m.group_end(0)), (0, 400_001));
}

#[test]
fn compile_errors_carry_kind_and_offset() {
    assert_eq!(fails("\0abc", &[]), (ErrorKind::NulInPattern, 0));
    assert_eq!(fails("ab\0", &[]), (ErrorKind::NulInPattern, 0));
    assert_eq!(fails("[", &[]), (ErrorKind::MissingBracket, 1));
    assert_eq!(fails("a[bc", &[]), (ErrorKind::MissingBracket, 4));
    assert_eq!(fails("[]", &[]), (ErrorKind::MissingBracket, 2));
    assert_eq!(fails("ab\\", &[]), (ErrorKind::TrailingBackslash, 3));
    assert_eq!(fails("[a\\", &[]), (ErrorKind::TrailingBackslash, 3));
    assert_eq!(fails("a\\j", &[CompileOption::Extra]), (ErrorKind::UnknownEscape, 2));
    assert_eq!(fails("[z-a]", &[]), (ErrorKind::RangeOutOfOrder, 3));
    assert_eq!(fails("*a", &[]), (ErrorKind::NothingToRepeat, 0));
    assert_eq!(fails("a**", &[]), (ErrorKind::NothingToRepeat, 2));
    assert_eq!(fails("a|+", &[]), (ErrorKind::NothingToRepeat, 2));
    assert_eq!(fails("a{3,2}", &[]), (ErrorKind::NumbersOutOfOrder, 6));
    assert_eq!(fails("a{65536}", &[]), (ErrorKind::NumberTooBig, 2));
    assert_eq!(fails("(ab", &[]), (ErrorKind::MissingParen, 3));
    assert_eq!(fails("a(b(c)", &[]), (ErrorKind::MissingParen, 6));
    assert_eq!(fails("ab)", &[]), (ErrorKind::UnmatchedParen, 2));
    assert_eq!(fails("(?", &[]), (ErrorKind::UnknownGroup, 2));
    assert_eq!(fails("(?~a)", &[]), (ErrorKind::UnknownGroup, 2));
    assert_eq!(fails("(?Px)", &[]), (ErrorKind::UnknownGroup, 3));
    assert_eq!(fails("(?<1a>b)", &[]), (ErrorKind::BadName, 3));
    assert_eq!(fails("(?<ab", &[]), (ErrorKind::BadName, 5));
    assert_eq!(fails("(?<a>b)(?<a>c)", &[]), (ErrorKind::DuplicateName, 10));
    assert_eq!(fails("(*FOO)", &[]), (ErrorKind::UnknownVerb, 2));
    assert_eq!(fails("(*MARK:)", &[]), (ErrorKind::UnknownVerb, 7));
    assert_eq!(fails("(a)\\2", &[]), (ErrorKind::UndefinedGroup, 3));
    assert_eq!(fails("\\k<n>(a)", &[]), (ErrorKind::UndefinedGroup, 0));
    assert_eq!(fails("a(?<=b+)c", &[]), (ErrorKind::LookbehindNotFixed, 1));
    assert_eq!(fails("(?<=a|bc)", &[]), (ErrorKind::LookbehindNotFixed, 0));
    let deep = "(".repeat(300);
    assert_eq!(fails(&deep, &[]), (ErrorKind::TooDeep, 200));
}

#[test]
fn compile_error_has_a_message() {
    let e = Pcre::compile("(ab").unwrap_err();
    assert_eq!(e.message(), Some(String::from("missing )")));
    assert_eq!(e.to_string(), "compilation failed at offset 3: missing )");
}

#[test]
fn unknown_escapes_are_literals_without_extra() {
    assert_eq!(span("a\\jb", "ajb"), Some((0, 3)));
}

#[test]
fn iteration_passes_over_empty_matches() {
    let re = Pcre::compile("a*").unwrap();
    let mut it = re.matches("baab");
    let mut seen = Vec::new();
    loop {
        match it.next().unwrap() {
            Some(m) => seen.push((m.group_start(0), m.group_end(0))),
            None => break,
        }
    }
    assert_eq!(seen, vec![(0, 0), (1, 3), (3, 3), (4, 4)]);
    assert!(it.next().unwrap().is_none());
    assert!(it.next().unwrap().is_none());
    assert_eq!(it.error(), None);
}

#[test]
fn iteration_with_options() {
    let re = Pcre::compile("a*").unwrap();
    let mut options: EnumSet<ExecOption> = EnumSet::new();
    options.insert(ExecOption::ExecNotEmpty);
    let mut it = re.matches_with_options("baab", &options);
    let m = it.next().unwrap().unwrap();
    assert_eq!((m.group_start(0), m.group_end(0)), (1, 3));
    assert!(it.next().unwrap().is_none());
}

#[test]
fn studying_changes_no_result() {
    let patterns = ["abc", "a|b", "(x+)y", "[0-9]+z", "^ab", "(?i)q", "a++b", "(?:ab)+"];
    let subjects = ["", "abc", "xxabc", "b", "xxy", "12z 3z", "ab", "q Q", "aab", "ababab", "zzz"];
    for p in patterns.iter() {
        for s in subjects.iter() {
            let mut plain = Pcre::compile(p).unwrap();
            let mut studied = Pcre::compile(p).unwrap();
            studied.study();
            studied.study();
            studied.study();
            let a = plain.exec(s).unwrap().map(|m| (m.group_start(0), m.group_end(0), m.string_count()));
            let b = studied.exec(s).unwrap().map(|m| (m.group_start(0), m.group_end(0), m.string_count()));
            assert_eq!(a, b);
            let mut off: EnumSet<ExecOption> = EnumSet::new();
            off.insert(ExecOption::ExecNoStartOptimise);
            let c = studied
                .exec_from_with_options(s, 0, &off)
                .unwrap()
                .map(|m| (m.group_start(0), m.group_end(0), m.string_count()));
            assert_eq!(a, c);
        }
    }
}

#[test]
fn study_finds_nothing_where_a_match_can_be_empty() {
    let mut re = Pcre::compile("a*").unwrap();
    assert!(!re.study());
    assert!(!re.enable_mark());
    let mut needed: EnumSet<StudyOption> = EnumSet::new();
    needed.insert(StudyOption::StudyExtraNeeded);
    assert!(re.study_with_options(&needed));
    assert!(re.enable_mark());
    // An extra block that was made is kept.
    assert!(re.study());
}

#[test]
fn compiling_twice_gives_the_same_matches() {
    let mut a = Pcre::compile("(\\w+)@(\\w+)").unwrap();
    let mut b = Pcre::compile("(\\w+)@(\\w+)").unwrap();
    let s = "mail bob@example now";
    let ma = a.exec(s).unwrap().unwrap();
    let mb = b.exec(s).unwrap().unwrap();
    for g in 0..3 {
        assert_eq!(ma.group_start(g), mb.group_start(g));
        assert_eq!(ma.group_end(g), mb.group_end(g));
    }
    assert_eq!(ma.string_count(), mb.string_count());
    assert_eq!(ma.group(1), "bob");
    assert_eq!(ma.group(2), "example");
}

#[test]
fn mark_is_cleared_when_no_mark_is_passed() {
    let mut re = Pcre::compile("a(*:one)b|c").unwrap();
    assert!(re.study());
    assert!(re.enable_mark());
    assert!(re.exec("ab").unwrap().is_some());
    assert_eq!(re.mark(), Some(String::from("one")));
    assert_eq!(re.mark_bytes(), Some(&b"one"[..]));
    assert!(re.exec("c").unwrap().is_some());
    assert_eq!(re.mark(), None);
    assert!(re.exec("ab").unwrap().is_some());
    assert_eq!(re.mark(), Some(String::from("one")));
    assert!(re.exec("zz").unwrap().is_none());
    assert_eq!(re.mark(), None);
    re.extra().unwrap().unset_mark();
    assert!(re.exec("ab").unwrap().is_some());
    assert_eq!(re.mark(), None);
}

#[test]
fn name_table_keeps_all_numbers_of_a_duplicate_name() {
    let re = compile("(?<a>x)(?<b>y)|(?<a>z)(w)(?<c>v)", &[CompileOption::DupNames]);
    assert_eq!(re.capture_count(), 5);
    assert_eq!(re.name_count(), 4);
    let table = re.name_table();
    let seen: Vec<(String, Vec<usize>)> =
        table.into_iter().map(|e| (e.name, e.indices)).collect();
    assert_eq!(
        seen,
        vec![
            (String::from("a"), vec![1, 3]),
            (String::from("b"), vec![2]),
            (String::from("c"), vec![5]),
        ]
    );
}

#[test]
fn name_table_of_a_pattern_without_names_is_empty() {
    let re = Pcre::compile("(a)(b)").unwrap();
    assert_eq!(re.name_count(), 0);
    assert!(re.name_table().is_empty());
}

#[test]
fn duplicate_names_by_inline_switch() {
    let mut re = Pcre::compile("(?J)(?<n>a)|(?<n>b)").unwrap();
    let m = re.exec("b").unwrap().unwrap();
    assert_eq!(m.group(2), "b");
    assert_eq!(m.group_start(1), usize::MAX);
    let table = re.name_table();
    assert_eq!(table.len(), 1);
    assert_eq!(table[0].name, "n");
    assert_eq!(table[0].indices, vec![1, 2]);
}

#[test]
fn extended_mode_allows_blanks_before_a_quantifier() {
    assert_eq!(span_with("a +b", &[CompileOption::Extended], "caaab"), Some((1, 5)));
    assert_eq!(span_with("a {2} b", &[CompileOption::Extended], "caab"), Some((1, 4)));
    assert_eq!(span("a +", "ca   b"), Some((1, 5)));
}

#[test]
fn a_cloned_iterator_goes_its_own_way() {
    let re = Pcre::compile("a").unwrap();
    let mut it = re.matches("aaa");
    assert_eq!(it.next().unwrap().unwrap().group_start(0), 0);
    let mut second = it.clone();
    assert_eq!(it.next().unwrap().unwrap().group_start(0), 1);
    assert_eq!(it.next().unwrap().unwrap().group_start(0), 2);
    assert!(it.next().unwrap().is_none());
    assert_eq!(second.next().unwrap().unwrap().group_start(0), 1);
}

#[test]
fn long_patterns_compile_and_match() {
    let pattern = "ab".repeat(50_000);
    let mut re = Pcre::compile(&pattern).unwrap();
    re.study();
    let mut subject = String::from("x");
    subject.push_str(&pattern);
    let m = re.exec(&subject).unwrap().unwrap();
    assert_eq!((m.group_start(0), m.group_end(0)), (1, 100_001));
    let alternatives = vec!["abc"; 20_000].join("|");
    let mut alt = Pcre::compile(&alternatives).unwrap();
    alt.study();
    assert!(alt.exec("zzabc").unwrap().is_some());
}

#[test]
fn nested_repetitions_of_empty_matches_end() {
    assert_eq!(span("(a*)*", "b"), Some((0, 0)));
    assert_eq!(span("(a*)+", "b"), Some((0, 0)));
    assert_eq!(span("(a*)*b", "aab"), Some((0, 3)));
    assert_eq!(span("(?:a?){3}b", "ab"), Some((0, 2)));
    assert_eq!(span("(a|ab)(c|bcd)(d*)", "abcd"), Some((0, 4)));
    let mut re = Pcre::compile("(a|ab)(c|bcd)(d*)").unwrap();
    let m = re.exec("abcd").unwrap().unwrap();
    assert_eq!(m.group(1), "a");
    assert_eq!(m.group(2), "bcd");
    assert_eq!(m.group(3), "");
}

#[test]
fn runaway_backtracking_ends_at_the_default_limit() {
    let mut re = Pcre::compile("(a*)*b").unwrap();
    let subject = "a".repeat(40);
    assert_eq!(re.exec(&subject).unwrap_err(), ExecError::MatchLimitExceeded);
    let it_re = Pcre::compile("(a*)*b").unwrap();
    let mut it = it_re.matches(&subject);
    assert_eq!(it.next().unwrap_err(), ExecError::MatchLimitExceeded);
    assert_eq!(it.error(), Some(ExecError::MatchLimitExceeded));
    assert!(it.next().unwrap().is_none());
}

#[test]
fn every_attempt_has_the_whole_step_budget() {
    // An attempt of `xc` at an `a` costs two steps. A thousand of them cost
    // more than the limit together, and none does alone.
    let mut re = Pcre::compile("xc").unwrap();
    assert!(re.study());
    let mut subject = "a".repeat(1000);
    subject.push_str("xc");
    re.extra().unwrap().set_match_limit(10);
    let m = exec_with(&mut re, &subject, 0, &[ExecOption::ExecNoStartOptimise]).unwrap();
    assert_eq!((m.group_start(0), m.group_end(0)), (1000, 1002));
    let m = exec_with(&mut re, &subject, 0, &[]).unwrap();
    assert_eq!((m.group_start(0), m.group_end(0)), (1000, 1002));
    re.extra().unwrap().set_match_limit(1);
    assert_eq!(
        try_with(&mut re, &subject, 0, &[ExecOption::ExecNoStartOptimise]).unwrap_err(),
        ExecError::MatchLimitExceeded
    );
}

#[test]
fn empty_alternatives_groups_and_counts() {
    assert_eq!(span("a|", "b"), Some((0, 0)));
    assert_eq!(span("|a", "a"), Some((0, 0)));
    assert_eq!(span("()", "x"), Some((0, 0)));
    assert_eq!(span("(?:)", "x"), Some((0, 0)));
    assert_eq!(span("a{0}b", "ab"), Some((1, 2)));
    assert_eq!(span("x(?:a|)y", "xy"), Some((0, 2)));
    let mut re = Pcre::compile("(a|)(b)").unwrap();
    let m = re.exec("b").unwrap().unwrap();
    assert_eq!((m.group_start(1), m.group_end(1)), (0, 0));
    assert_eq!(m.group(2), "b");
}

#[test]
fn lookbehind_widths() {
    assert_eq!(span("(?<=\\d{3})x", "12x 123x"), Some((7, 8)));
    assert_eq!(span("(?<=(?:ab)c)d", "abcd"), Some((3, 4)));
    assert_eq!(span("(?<=^a)b", "ab"), Some((1, 2)));
    assert_eq!(span("(?<!^)b", "b ab"), Some((3, 4)));
    assert_eq!(span("(?<=a(?=b))b", "ab"), Some((1, 2)));
}

#[test]
fn dollar_before_a_final_crlf() {
    assert_eq!(span_with("a$", &[CompileOption::NewlineCRLF], "a\r\n"), Some((0, 1)));
    assert_eq!(span_with("a$", &[CompileOption::NewlineCRLF], "a\n"), None);
    assert_eq!(span_with("a$", &[CompileOption::NewlineAnyCRLF], "a\r"), Some((0, 1)));
    // A line ends where a newline sequence begins, also within CR LF.
    assert_eq!(
        span_with("a\\r$", &[CompileOption::NewlineAnyCRLF, CompileOption::Multiline], "a\r\nb"),
        Some((0, 2))
    );
    assert_eq!(
        span_with("^\\n", &[CompileOption::NewlineAnyCRLF, CompileOption::Multiline], "a\r\nb"),
        None
    );
}

#[test]
fn try_exec_tells_an_error_from_no_match() {
    let re = Pcre::compile("(?:a|b)*c").unwrap();
    let none: EnumSet<ExecOption> = EnumSet::new();
    match re.try_exec(b"ab", 0, &none) {
        Ok(Found::NoMatch) => {}
        other => panic!("{:?}", other),
    }
    match re.try_exec(b"xabc", 0, &none) {
        Ok(Found::Match { start, end, .. }) => assert_eq!((start, end), (1, 4)),
        other => panic!("{:?}", other),
    }
    let mut bad: EnumSet<ExecOption> = EnumSet::new();
    bad.insert(ExecOption::ExecNewlineAny);
    bad.insert(ExecOption::ExecNewlineLF);
    match re.try_exec(b"abc", 0, &bad) {
        Err(ExecError::BadNewline) => {}
        other => panic!("{:?}", other),
    }
}

#[test]
fn subjects_with_bytes_beyond_ascii() {
    let mut re = Pcre::compile("(?:é)+").unwrap();
    let m = re.exec("caféé!").unwrap().unwrap();
    assert_eq!((m.group_start(0), m.group_end(0)), (3, 7));
    assert_eq!(m.group(0), "éé");
    // A quantifier repeats one byte of the pattern.
    let mut last = Pcre::compile("é+").unwrap();
    let m = last.exec("caféé!").unwrap().unwrap();
    assert_eq!((m.group_start(0), m.group_end(0)), (3, 5));
    // A dot matches one byte, which may be part of a character.
    let mut dot = Pcre::compile("f.").unwrap();
    let m = dot.exec("café").unwrap().unwrap();
    assert_eq!((m.group_start(0), m.group_end(0)), (2, 4));
    assert_eq!(m.group_bytes(0), &[0x66, 0xc3][..]);
}

#[test]
fn a_long_subject_is_searched_to_its_end_studied_or_not() {
    let mut subject = "a".repeat(6_000_000);
    subject.push_str("xc");
    let mut plain = Pcre::compile("xc").unwrap();
    let m = plain.exec(&subject).unwrap().unwrap();
    assert_eq!((m.group_start(0), m.group_end(0)), (6_000_000, 6_000_002));
    let m = exec_with(&mut plain, &subject, 0, &[ExecOption::ExecNoStartOptimise]).unwrap();
    assert_eq!((m.group_start(0), m.group_end(0)), (6_000_000, 6_000_002));
    let mut studied = Pcre::compile("xc").unwrap();
    assert!(studied.study());
    let m = studied.exec(&subject).unwrap().unwrap();
    assert_eq!((m.group_start(0), m.group_end(0)), (6_000_000, 6_000_002));
    let mut needed: EnumSet<StudyOption> = EnumSet::new();
    needed.insert(StudyOption::StudyExtraNeeded);
    assert!(studied.study_with_options(&needed));
    let m = studied.exec(&subject).unwrap().unwrap();
    assert_eq!((m.group_start(0), m.group_end(0)), (6_000_000, 6_000_002));
}

#[test]
fn studying_keeps_limits_and_marks() {
    let mut re = Pcre::compile("a(*:m)b").unwrap();
    assert!(re.study());
    assert!(re.enable_mark());
    re.extra().unwrap().set_match_limit(7);
    re.extra().unwrap().set_match_limit_recursion(9);
    assert!(re.study());
    assert!(re.study());
    assert_eq!(re.extra().unwrap().match_limit(), Some(7));
    assert_eq!(re.extra().unwrap().match_limit_recursion(), Some(9));
    assert_eq!(re.capture_count(), 0);
    assert!(re.exec("ab").unwrap().is_some());
    assert_eq!(re.mark(), Some(String::from("m")));
}

#[test]
fn compile_error_offsets_lie_within_the_pattern() {
    let patterns = ["(", "[", "a\\", "(?<=a*)b", "\\9", "a{5,2}", "(?<n>a)(?<n>b)", "x)", "(*X)"];
    for p in patterns.iter() {
        let e = Pcre::compile(p).unwrap_err();
        assert!(e.offset() <= p.len());
    }
}

#[test]
fn a_pattern_has_at_most_65535_groups() {
    let most = "()".repeat(65535);
    let re = Pcre::compile(&most).unwrap();
    assert_eq!(re.capture_count(), 65535);
    let more = "()".repeat(65536);
    assert_eq!(fails(&more, &[]), (ErrorKind::TooManyGroups, 131070));
    let named = format!("{}(?<n>a)", most);
    assert_eq!(fails(&named, &[]), (ErrorKind::TooManyGroups, 131070));
}
