//! What holds of every pattern, tried on random ones: a pattern is refused
//! at an offset within it or compiles; a studied pattern matches as the same
//! pattern unstudied; and every group of a match lies within the subject.

use pcre::{CompileOption, EnumSet, ExecOption, Pcre, StudyOption};

struct Rng(u64);

impl Rng {
    fn next(&mut self) -> u64 {
        self.0 = self.0.wrapping_mul(6364136223846793005).wrapping_add(1442695040888963407);
        self.0 >> 33
    }
    fn below(&mut self, n: u64) -> u64 {
        self.next() % n
    }
}

fn groups(re: &mut Pcre, subject: &str, start: usize, options: &EnumSet<ExecOption>) -> Option<Vec<(usize, usize)>> {
    re.exec_from_with_options(subject, start, options)
        .unwrap()
        .map(|m| (0..m.string_count()).map(|g| (m.group_start(g), m.group_end(g))).collect())
}

fn try_patterns(seed: u64, rounds: u32) {
    let alphabet: Vec<char> = "ab()[]{}|*+?^$\\.-,123<>=!:#PkUJxi' \nMARK".chars().collect();
    let mut rng = Rng(seed);
    let mut compiled = 0;
    let mut refused = 0;
    for _ in 0..rounds {
        let n = rng.below(14);
        let pattern: String =
            (0..n).map(|_| alphabet[rng.below(alphabet.len() as u64) as usize]).collect();
        let mut options: EnumSet<CompileOption> = EnumSet::new();
        if rng.below(4) == 0 {
            options.insert(CompileOption::Extended);
        }
        if rng.below(4) == 0 {
            options.insert(CompileOption::DupNames);
        }
        if rng.below(4) == 0 {
            options.insert(CompileOption::Multiline);
        }
        match Pcre::compile_with_options(&pattern, &options) {
            Err(e) => {
                refused += 1;
                assert!(e.offset() <= pattern.len(), "{:?}", pattern);
                assert!(e.message().is_some());
            }
            Ok(mut studied) => {
                compiled += 1;
                let mut plain = Pcre::compile_with_options(&pattern, &options).unwrap();
                let mut needed: EnumSet<StudyOption> = EnumSet::new();
                needed.insert(StudyOption::StudyExtraNeeded);
                assert!(studied.study_with_options(&needed));
                assert_eq!(studied.capture_count(), plain.capture_count());
                for entry in studied.name_table() {
                    assert!(!entry.indices.is_empty());
                    for g in entry.indices {
                        assert!(1 <= g && g <= studied.capture_count());
                    }
                }
                for _ in 0..4 {
                    let m = rng.below(10);
                    let subject: String =
                        (0..m).map(|_| alphabet[rng.below(8) as usize]).collect();
                    let mut exec: EnumSet<ExecOption> = EnumSet::new();
                    if rng.below(5) == 0 {
                        exec.insert(ExecOption::ExecPartialSoft);
                    }
                    let not_empty = rng.below(5) == 0;
                    if not_empty {
                        exec.insert(ExecOption::ExecNotEmpty);
                    }
                    let start = rng.below(m + 1) as usize;
                    let a = groups(&mut studied, &subject, start, &exec);
                    let b = groups(&mut plain, &subject, start, &exec);
                    assert_eq!(a, b, "pattern {:?} subject {:?}", pattern, subject);
                    if let Some(found) = a {
                        assert!(start <= found[0].0);
                        assert!(!not_empty || found[0].0 < found[0].1);
                        for (s, e) in found {
                            assert!(
                                s == usize::MAX && e == usize::MAX || s <= e && e <= subject.len()
                            );
                        }
                    }
                }
            }
        }
    }
    assert!(compiled > 0 && refused > 0);
}

#[test]
fn random_patterns_keep_the_laws() {
    try_patterns(1, 20000);
}

#[test]
fn random_patterns_keep_the_laws_second_seed() {
    try_patterns(2, 20000);
}
