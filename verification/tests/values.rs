use pcre::{
    pcre_version, CLike, CompileOption, EnumSet, ExecNoStartOptimize, ExecOption, ExecPartial,
    ExtraOption, StudyOption, Version,
};

#[test]
fn version_parses_major_and_minor() {
    assert_eq!(Version::parse("8.32"), Some(Version { major: 8, minor: 32 }));
    assert_eq!(Version::parse("10.0.7"), Some(Version { major: 10, minor: 0 }));
    assert_eq!(Version::parse("0.2.3"), Some(Version { major: 0, minor: 2 }));
    assert_eq!(Version::parse("007.010"), Some(Version { major: 7, minor: 10 }));
}

#[test]
fn version_refuses_what_is_no_version() {
    assert_eq!(Version::parse(""), None);
    assert_eq!(Version::parse("8"), None);
    assert_eq!(Version::parse("8."), None);
    assert_eq!(Version::parse(".3"), None);
    assert_eq!(Version::parse("8.x"), None);
    assert_eq!(Version::parse("8.32 2012-11-30"), None);
    assert_eq!(Version::parse("a.1"), None);
    assert_eq!(Version::parse("-1.2"), None);
    assert_eq!(Version::parse("99999999999999999999999999.1"), None);
    assert_eq!(Version::parse("1.99999999999999999999999999"), None);
}

#[test]
fn version_takes_the_largest_number_that_fits() {
    let text = format!("{}.{}", usize::MAX, usize::MAX);
    assert_eq!(Version::parse(&text), Some(Version { major: usize::MAX, minor: usize::MAX }));
}

#[test]
fn versions_compare_by_major_then_minor() {
    let a = Version { major: 8, minor: 32 };
    let b = Version { major: 8, minor: 33 };
    let c = Version { major: 9, minor: 0 };
    assert!(a.lt(&b));
    assert!(b.lt(&c));
    assert!(!c.lt(&a));
    assert!(!a.lt(&a));
}

#[test]
fn versions_are_ordered() {
    let a = Version { major: 8, minor: 32 };
    let b = Version { major: 8, minor: 33 };
    let c = Version { major: 9, minor: 0 };
    assert_eq!(a.partial_cmp(&b), Some(std::cmp::Ordering::Less));
    assert_eq!(c.partial_cmp(&b), Some(std::cmp::Ordering::Greater));
    assert_eq!(a.partial_cmp(&a), Some(std::cmp::Ordering::Equal));
    assert_eq!(a.cmp(&b), std::cmp::Ordering::Less);
    assert_eq!(c.cmp(&a), std::cmp::Ordering::Greater);
    assert_eq!(b.cmp(&b), std::cmp::Ordering::Equal);
    assert!(a < b && b < c && a <= a && c > a && c >= b);
    assert_eq!(std::cmp::max(a, c), c);
    let mut all = vec![c, a, b];
    all.sort();
    assert_eq!(all, vec![a, b, c]);
}

#[test]
fn version_as_text() {
    assert_eq!(Version { major: 8, minor: 32 }.to_string(), "8.32");
    assert_eq!(Version { major: 0, minor: 0 }.to_string(), "0.0");
    assert_eq!(Version { major: 10, minor: 7 }.to_string(), "10.7");
    let v = Version { major: 123, minor: 4567 };
    assert_eq!(Version::parse(&v.to_string()), Some(v));
}

#[test]
fn library_version_is_a_version() {
    assert_eq!(pcre_version(), "0.2.3");
    assert_eq!(Version::parse(&pcre_version()), Some(Version { major: 0, minor: 2 }));
}

#[test]
fn ordinals_count_from_one() {
    assert_eq!(CompileOption::Caseless.to_u32(), 1);
    assert_eq!(CompileOption::Ucp.to_u32(), 21);
    assert_eq!(ExecOption::ExecAnchored.to_u32(), 1);
    assert_eq!(ExecOption::ExecNotEmptyAtStart.to_u32(), 15);
    assert_eq!(ExtraOption::ExtraExecutableJit.to_u32(), 7);
    assert_eq!(StudyOption::StudyExtraNeeded.to_u32(), 4);
    for n in 1..=21 {
        assert_eq!(CompileOption::from_u32(n).to_u32(), n);
    }
    for n in 1..=15 {
        assert_eq!(ExecOption::from_u32(n).to_u32(), n);
    }
    for n in 1..=7 {
        assert_eq!(ExtraOption::from_u32(n).to_u32(), n);
    }
    for n in 1..=4 {
        assert_eq!(StudyOption::from_u32(n).to_u32(), n);
    }
}

#[test]
fn masks_are_the_flag_words() {
    assert_eq!(CompileOption::Caseless.mask(), 0x0000_0001);
    assert_eq!(CompileOption::DupNames.mask(), 0x0008_0000);
    assert_eq!(
        CompileOption::NewlineCR.mask() | CompileOption::NewlineLF.mask(),
        CompileOption::NewlineCRLF.mask()
    );
    assert_eq!(
        CompileOption::NewlineCR.mask() | CompileOption::NewlineAny.mask(),
        CompileOption::NewlineAnyCRLF.mask()
    );
    assert_eq!(CompileOption::Ucp.mask(), 0x2000_0000);
    assert_eq!(ExecOption::ExecPartialHard.mask(), 0x0800_0000);
    assert_eq!(ExecOption::ExecNotEmptyAtStart.mask(), 0x1000_0000);
    assert_eq!(ExtraOption::ExtraMark.mask(), 0x0020);
    assert_eq!(StudyOption::StudyExtraNeeded.mask(), 0x0008);
}

#[test]
fn option_aliases() {
    assert_eq!(ExecPartial, ExecOption::ExecPartialSoft);
    assert_eq!(ExecNoStartOptimize, ExecOption::ExecNoStartOptimise);
}

#[test]
fn enum_set_holds_what_was_put_in() {
    let mut set: EnumSet<CompileOption> = EnumSet::new();
    assert!(!set.contains(&CompileOption::Caseless));
    assert!(set.insert(CompileOption::Caseless));
    assert!(!set.insert(CompileOption::Caseless));
    assert!(set.insert(CompileOption::Ucp));
    assert!(set.contains(&CompileOption::Caseless));
    assert!(set.contains(&CompileOption::Ucp));
    assert!(!set.contains(&CompileOption::Multiline));
    let copy = set.copy();
    assert!(set.remove(&CompileOption::Caseless));
    assert!(!set.remove(&CompileOption::Caseless));
    assert!(!set.contains(&CompileOption::Caseless));
    assert!(copy.contains(&CompileOption::Caseless));
    assert!(copy.contains(&CompileOption::Ucp));
}
