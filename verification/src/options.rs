//! Option enumerations and the small bit set that carries them.
//!
//! Every option has an ordinal (its position in the enumeration, counted from
//! one) and a mask (the flag word that the option stands for when options are
//! combined into a single integer).
//!
//! The set is this crate's own. The `enum-set` crate has the same set, but
//! asks of its elements a trait with an unsafe method, and this crate writes
//! no unsafe code.

use std::marker::PhantomData;
use vstd::prelude::*;

verus! {

/// Options that change how a pattern is compiled.
#[derive(Clone, Copy, Debug, PartialEq, Eq, Structural)]
pub enum CompileOption {
    Caseless,
    Multiline,
    DotAll,
    Extended,
    Anchored,
    DollarEndOnly,
    Extra,
    Ungreedy,
    NoAutoCapture,
    AutoCallout,
    FirstLine,
    DupNames,
    NewlineCR,
    NewlineLF,
    NewlineCRLF,
    NewlineAny,
    NewlineAnyCRLF,
    BsrAnyCRLF,
    BsrUnicode,
    JavaScriptCompat,
    Ucp,
}

/// Options that change how one match attempt is run.
#[derive(Clone, Copy, Debug, PartialEq, Eq, Structural)]
pub enum ExecOption {
    ExecAnchored,
    ExecNotBol,
    ExecNotEol,
    ExecNotEmpty,
    ExecPartialSoft,
    ExecNewlineCR,
    ExecNewlineLF,
    ExecNewlineCRLF,
    ExecNewlineAny,
    ExecNewlineAnyCRLF,
    ExecBsrAnyCRLF,
    ExecBsrUnicode,
    ExecNoStartOptimise,
    ExecPartialHard,
    ExecNotEmptyAtStart,
}

#[allow(non_upper_case_globals)]
pub const ExecPartial: ExecOption = ExecOption::ExecPartialSoft;

#[allow(non_upper_case_globals)]
pub const ExecNoStartOptimize: ExecOption = ExecOption::ExecNoStartOptimise;

/// Flags that say which fields of an extra block are in use.
#[derive(Clone, Copy, Debug, PartialEq, Eq, Structural)]
pub enum ExtraOption {
    ExtraStudyData,
    ExtraMatchLimit,
    ExtraCalloutData,
    ExtraTables,
    ExtraMatchLimitRecursion,
    ExtraMark,
    ExtraExecutableJit,
}

/// Options that change what studying a pattern produces.
#[derive(Clone, Copy, Debug, PartialEq, Eq, Structural)]
pub enum StudyOption {
    StudyJitCompile,
    StudyJitPartialSoftCompile,
    StudyJitPartialHardCompile,
    /// Always create an extra block.
    StudyExtraNeeded,
}

/// An enumeration whose values are numbered from one without gaps.
pub trait CLike: Sized {
    /// The number of values of the enumeration.
    spec fn count() -> nat;

    /// The position of the value in the enumeration, counted from one.
    spec fn ordinal(&self) -> nat;

    /// Every ordinal lies in `1..=count()`, and the count fits in a 32-bit set.
    proof fn ordinal_in_range(&self)
        ensures
            1 <= self.ordinal() <= Self::count(),
            Self::count() < 32,
    ;

    /// Different values have different ordinals.
    proof fn ordinal_injective(&self, other: &Self)
        requires
            self.ordinal() == other.ordinal(),
        ensures
            self == other,
    ;

    fn to_u32(&self) -> (n: u32)
        ensures
            n == self.ordinal(),
    ;

    fn from_u32(n: u32) -> (e: Self)
        requires
            1 <= n <= Self::count(),
        ensures
            e.ordinal() == n,
    ;
}

impl CLike for CompileOption {
    open spec fn count() -> nat {
        21
    }

    open spec fn ordinal(&self) -> nat {
        match self {
            CompileOption::Caseless => 1,
            CompileOption::Multiline => 2,
            CompileOption::DotAll => 3,
            CompileOption::Extended => 4,
            CompileOption::Anchored => 5,
            CompileOption::DollarEndOnly => 6,
            CompileOption::Extra => 7,
            CompileOption::Ungreedy => 8,
            CompileOption::NoAutoCapture => 9,
            CompileOption::AutoCallout => 10,
            CompileOption::FirstLine => 11,
            CompileOption::DupNames => 12,
            CompileOption::NewlineCR => 13,
            CompileOption::NewlineLF => 14,
            CompileOption::NewlineCRLF => 15,
            CompileOption::NewlineAny => 16,
            CompileOption::NewlineAnyCRLF => 17,
            CompileOption::BsrAnyCRLF => 18,
            CompileOption::BsrUnicode => 19,
            CompileOption::JavaScriptCompat => 20,
            CompileOption::Ucp => 21,
        }
    }

    proof fn ordinal_in_range(&self) {
    }

    proof fn ordinal_injective(&self, other: &Self) {
    }

    fn to_u32(&self) -> (n: u32) {
        match *self {
            CompileOption::Caseless => 1,
            CompileOption::Multiline => 2,
            CompileOption::DotAll => 3,
            CompileOption::Extended => 4,
            CompileOption::Anchored => 5,
            CompileOption::DollarEndOnly => 6,
            CompileOption::Extra => 7,
            CompileOption::Ungreedy => 8,
            CompileOption::NoAutoCapture => 9,
            CompileOption::AutoCallout => 10,
            CompileOption::FirstLine => 11,
            CompileOption::DupNames => 12,
            CompileOption::NewlineCR => 13,
            CompileOption::NewlineLF => 14,
            CompileOption::NewlineCRLF => 15,
            CompileOption::NewlineAny => 16,
            CompileOption::NewlineAnyCRLF => 17,
            CompileOption::BsrAnyCRLF => 18,
            CompileOption::BsrUnicode => 19,
            CompileOption::JavaScriptCompat => 20,
            CompileOption::Ucp => 21,
        }
    }

    fn from_u32(n: u32) -> (e: Self) {
        match n {
            1 => CompileOption::Caseless,
            2 => CompileOption::Multiline,
            3 => CompileOption::DotAll,
            4 => CompileOption::Extended,
            5 => CompileOption::Anchored,
            6 => CompileOption::DollarEndOnly,
            7 => CompileOption::Extra,
            8 => CompileOption::Ungreedy,
            9 => CompileOption::NoAutoCapture,
            10 => CompileOption::AutoCallout,
            11 => CompileOption::FirstLine,
            12 => CompileOption::DupNames,
            13 => CompileOption::NewlineCR,
            14 => CompileOption::NewlineLF,
            15 => CompileOption::NewlineCRLF,
            16 => CompileOption::NewlineAny,
            17 => CompileOption::NewlineAnyCRLF,
            18 => CompileOption::BsrAnyCRLF,
            19 => CompileOption::BsrUnicode,
            20 => CompileOption::JavaScriptCompat,
            _ => CompileOption::Ucp,
        }
    }
}

impl CompileOption {
    /// The flag word of the option. The five newline options share three
    /// bits, so that two of them together can spell a third.
    pub open spec fn mask_spec(&self) -> u32 {
        match self {
            CompileOption::Caseless => 0x0000_0001,
            CompileOption::Multiline => 0x0000_0002,
            CompileOption::DotAll => 0x0000_0004,
            CompileOption::Extended => 0x0000_0008,
            CompileOption::Anchored => 0x0000_0010,
            CompileOption::DollarEndOnly => 0x0000_0020,
            CompileOption::Extra => 0x0000_0040,
            CompileOption::Ungreedy => 0x0000_0200,
            CompileOption::NoAutoCapture => 0x0000_1000,
            CompileOption::AutoCallout => 0x0000_4000,
            CompileOption::FirstLine => 0x0004_0000,
            CompileOption::DupNames => 0x0008_0000,
            CompileOption::NewlineCR => 0x0010_0000,
            CompileOption::NewlineLF => 0x0020_0000,
            CompileOption::NewlineCRLF => 0x0030_0000,
            CompileOption::NewlineAny => 0x0040_0000,
            CompileOption::NewlineAnyCRLF => 0x0050_0000,
            CompileOption::BsrAnyCRLF => 0x0080_0000,
            CompileOption::BsrUnicode => 0x0100_0000,
            CompileOption::JavaScriptCompat => 0x0200_0000,
            CompileOption::Ucp => 0x2000_0000,
        }
    }

    #[verifier::when_used_as_spec(mask_spec)]
    pub fn mask(&self) -> (m: u32)
        ensures
            m == self.mask_spec(),
    {
        match *self {
            CompileOption::Caseless => 0x0000_0001,
            CompileOption::Multiline => 0x0000_0002,
            CompileOption::DotAll => 0x0000_0004,
            CompileOption::Extended => 0x0000_0008,
            CompileOption::Anchored => 0x0000_0010,
            CompileOption::DollarEndOnly => 0x0000_0020,
            CompileOption::Extra => 0x0000_0040,
            CompileOption::Ungreedy => 0x0000_0200,
            CompileOption::NoAutoCapture => 0x0000_1000,
            CompileOption::AutoCallout => 0x0000_4000,
            CompileOption::FirstLine => 0x0004_0000,
            CompileOption::DupNames => 0x0008_0000,
            CompileOption::NewlineCR => 0x0010_0000,
            CompileOption::NewlineLF => 0x0020_0000,
            CompileOption::NewlineCRLF => 0x0030_0000,
            CompileOption::NewlineAny => 0x0040_0000,
            CompileOption::NewlineAnyCRLF => 0x0050_0000,
            CompileOption::BsrAnyCRLF => 0x0080_0000,
            CompileOption::BsrUnicode => 0x0100_0000,
            CompileOption::JavaScriptCompat => 0x0200_0000,
            CompileOption::Ucp => 0x2000_0000,
        }
    }
}

impl CLike for ExecOption {
    open spec fn count() -> nat {
        15
    }

    open spec fn ordinal(&self) -> nat {
        match self {
            ExecOption::ExecAnchored => 1,
            ExecOption::ExecNotBol => 2,
            ExecOption::ExecNotEol => 3,
            ExecOption::ExecNotEmpty => 4,
            ExecOption::ExecPartialSoft => 5,
            ExecOption::ExecNewlineCR => 6,
            ExecOption::ExecNewlineLF => 7,
            ExecOption::ExecNewlineCRLF => 8,
            ExecOption::ExecNewlineAny => 9,
            ExecOption::ExecNewlineAnyCRLF => 10,
            ExecOption::ExecBsrAnyCRLF => 11,
            ExecOption::ExecBsrUnicode => 12,
            ExecOption::ExecNoStartOptimise => 13,
            ExecOption::ExecPartialHard => 14,
            ExecOption::ExecNotEmptyAtStart => 15,
        }
    }

    proof fn ordinal_in_range(&self) {
    }

    proof fn ordinal_injective(&self, other: &Self) {
    }

    fn to_u32(&self) -> (n: u32) {
        match *self {
            ExecOption::ExecAnchored => 1,
            ExecOption::ExecNotBol => 2,
            ExecOption::ExecNotEol => 3,
            ExecOption::ExecNotEmpty => 4,
            ExecOption::ExecPartialSoft => 5,
            ExecOption::ExecNewlineCR => 6,
            ExecOption::ExecNewlineLF => 7,
            ExecOption::ExecNewlineCRLF => 8,
            ExecOption::ExecNewlineAny => 9,
            ExecOption::ExecNewlineAnyCRLF => 10,
            ExecOption::ExecBsrAnyCRLF => 11,
            ExecOption::ExecBsrUnicode => 12,
            ExecOption::ExecNoStartOptimise => 13,
            ExecOption::ExecPartialHard => 14,
            ExecOption::ExecNotEmptyAtStart => 15,
        }
    }

    fn from_u32(n: u32) -> (e: Self) {
        match n {
            1 => ExecOption::ExecAnchored,
            2 => ExecOption::ExecNotBol,
            3 => ExecOption::ExecNotEol,
            4 => ExecOption::ExecNotEmpty,
            5 => ExecOption::ExecPartialSoft,
            6 => ExecOption::ExecNewlineCR,
            7 => ExecOption::ExecNewlineLF,
            8 => ExecOption::ExecNewlineCRLF,
            9 => ExecOption::ExecNewlineAny,
            10 => ExecOption::ExecNewlineAnyCRLF,
            11 => ExecOption::ExecBsrAnyCRLF,
            12 => ExecOption::ExecBsrUnicode,
            13 => ExecOption::ExecNoStartOptimise,
            14 => ExecOption::ExecPartialHard,
            _ => ExecOption::ExecNotEmptyAtStart,
        }
    }
}

impl ExecOption {
    /// The flag word of the option.
    pub open spec fn mask_spec(&self) -> u32 {
        match self {
            ExecOption::ExecAnchored => 0x0000_0010,
            ExecOption::ExecNotBol => 0x0000_0080,
            ExecOption::ExecNotEol => 0x0000_0100,
            ExecOption::ExecNotEmpty => 0x0000_0400,
            ExecOption::ExecPartialSoft => 0x0000_8000,
            ExecOption::ExecNewlineCR => 0x0010_0000,
            ExecOption::ExecNewlineLF => 0x0020_0000,
            ExecOption::ExecNewlineCRLF => 0x0030_0000,
            ExecOption::ExecNewlineAny => 0x0040_0000,
            ExecOption::ExecNewlineAnyCRLF => 0x0050_0000,
            ExecOption::ExecBsrAnyCRLF => 0x0080_0000,
            ExecOption::ExecBsrUnicode => 0x0100_0000,
            ExecOption::ExecNoStartOptimise => 0x0400_0000,
            ExecOption::ExecPartialHard => 0x0800_0000,
            ExecOption::ExecNotEmptyAtStart => 0x1000_0000,
        }
    }

    #[verifier::when_used_as_spec(mask_spec)]
    pub fn mask(&self) -> (m: u32)
        ensures
            m == self.mask_spec(),
    {
        match *self {
            ExecOption::ExecAnchored => 0x0000_0010,
            ExecOption::ExecNotBol => 0x0000_0080,
            ExecOption::ExecNotEol => 0x0000_0100,
            ExecOption::ExecNotEmpty => 0x0000_0400,
            ExecOption::ExecPartialSoft => 0x0000_8000,
            ExecOption::ExecNewlineCR => 0x0010_0000,
            ExecOption::ExecNewlineLF => 0x0020_0000,
            ExecOption::ExecNewlineCRLF => 0x0030_0000,
            ExecOption::ExecNewlineAny => 0x0040_0000,
            ExecOption::ExecNewlineAnyCRLF => 0x0050_0000,
            ExecOption::ExecBsrAnyCRLF => 0x0080_0000,
            ExecOption::ExecBsrUnicode => 0x0100_0000,
            ExecOption::ExecNoStartOptimise => 0x0400_0000,
            ExecOption::ExecPartialHard => 0x0800_0000,
            ExecOption::ExecNotEmptyAtStart => 0x1000_0000,
        }
    }
}

impl CLike for ExtraOption {
    open spec fn count() -> nat {
        7
    }

    open spec fn ordinal(&self) -> nat {
        match self {
            ExtraOption::ExtraStudyData => 1,
            ExtraOption::ExtraMatchLimit => 2,
            ExtraOption::ExtraCalloutData => 3,
            ExtraOption::ExtraTables => 4,
            ExtraOption::ExtraMatchLimitRecursion => 5,
            ExtraOption::ExtraMark => 6,
            ExtraOption::ExtraExecutableJit => 7,
        }
    }

    proof fn ordinal_in_range(&self) {
    }

    proof fn ordinal_injective(&self, other: &Self) {
    }

    fn to_u32(&self) -> (n: u32) {
        match *self {
            ExtraOption::ExtraStudyData => 1,
            ExtraOption::ExtraMatchLimit => 2,
            ExtraOption::ExtraCalloutData => 3,
            ExtraOption::ExtraTables => 4,
            ExtraOption::ExtraMatchLimitRecursion => 5,
            ExtraOption::ExtraMark => 6,
            ExtraOption::ExtraExecutableJit => 7,
        }
    }

    fn from_u32(n: u32) -> (e: Self) {
        match n {
            1 => ExtraOption::ExtraStudyData,
            2 => ExtraOption::ExtraMatchLimit,
            3 => ExtraOption::ExtraCalloutData,
            4 => ExtraOption::ExtraTables,
            5 => ExtraOption::ExtraMatchLimitRecursion,
            6 => ExtraOption::ExtraMark,
            _ => ExtraOption::ExtraExecutableJit,
        }
    }
}

impl ExtraOption {
    /// The flag word of the option.
    pub open spec fn mask_spec(&self) -> u32 {
        match self {
            ExtraOption::ExtraStudyData => 0x0001,
            ExtraOption::ExtraMatchLimit => 0x0002,
            ExtraOption::ExtraCalloutData => 0x0004,
            ExtraOption::ExtraTables => 0x0008,
            ExtraOption::ExtraMatchLimitRecursion => 0x0010,
            ExtraOption::ExtraMark => 0x0020,
            ExtraOption::ExtraExecutableJit => 0x0040,
        }
    }

    #[verifier::when_used_as_spec(mask_spec)]
    pub fn mask(&self) -> (m: u32)
        ensures
            m == self.mask_spec(),
    {
        match *self {
            ExtraOption::ExtraStudyData => 0x0001,
            ExtraOption::ExtraMatchLimit => 0x0002,
            ExtraOption::ExtraCalloutData => 0x0004,
            ExtraOption::ExtraTables => 0x0008,
            ExtraOption::ExtraMatchLimitRecursion => 0x0010,
            ExtraOption::ExtraMark => 0x0020,
            ExtraOption::ExtraExecutableJit => 0x0040,
        }
    }
}

impl CLike for StudyOption {
    open spec fn count() -> nat {
        4
    }

    open spec fn ordinal(&self) -> nat {
        match self {
            StudyOption::StudyJitCompile => 1,
            StudyOption::StudyJitPartialSoftCompile => 2,
            StudyOption::StudyJitPartialHardCompile => 3,
            StudyOption::StudyExtraNeeded => 4,
        }
    }

    proof fn ordinal_in_range(&self) {
    }

    proof fn ordinal_injective(&self, other: &Self) {
    }

    fn to_u32(&self) -> (n: u32) {
        match *self {
            StudyOption::StudyJitCompile => 1,
            StudyOption::StudyJitPartialSoftCompile => 2,
            StudyOption::StudyJitPartialHardCompile => 3,
            StudyOption::StudyExtraNeeded => 4,
        }
    }

    fn from_u32(n: u32) -> (e: Self) {
        match n {
            1 => StudyOption::StudyJitCompile,
            2 => StudyOption::StudyJitPartialSoftCompile,
            3 => StudyOption::StudyJitPartialHardCompile,
            _ => StudyOption::StudyExtraNeeded,
        }
    }
}

impl StudyOption {
    /// The flag word of the option.
    pub open spec fn mask_spec(&self) -> u32 {
        match self {
            StudyOption::StudyJitCompile => 0x0001,
            StudyOption::StudyJitPartialSoftCompile => 0x0002,
            StudyOption::StudyJitPartialHardCompile => 0x0004,
            StudyOption::StudyExtraNeeded => 0x0008,
        }
    }

    #[verifier::when_used_as_spec(mask_spec)]
    pub fn mask(&self) -> (m: u32)
        ensures
            m == self.mask_spec(),
    {
        match *self {
            StudyOption::StudyJitCompile => 0x0001,
            StudyOption::StudyJitPartialSoftCompile => 0x0002,
            StudyOption::StudyJitPartialHardCompile => 0x0004,
            StudyOption::StudyExtraNeeded => 0x0008,
        }
    }
}

/// Whether bit `n` of `bits` is set.
pub open spec fn bit_is_set(bits: u32, n: nat) -> bool {
    n < 32 && (bits >> (n as u32)) & 1 == 1
}

/// A set of values of one enumeration, held as one bit per ordinal.
#[derive(Debug)]
pub struct EnumSet<E> {
    bits: u32,
    marker: PhantomData<E>,
}

impl<E: CLike> EnumSet<E> {
    /// The ordinals of the values that the set holds.
    pub closed spec fn view(&self) -> Set<nat> {
        Set::new(|n: nat| bit_is_set(self.bits, n))
    }

    /// Whether the set holds `e`.
    pub open spec fn has(&self, e: E) -> bool {
        self@.contains(e.ordinal())
    }

    /// The empty set.
    pub fn new() -> (s: Self)
        ensures
            s@ == Set::<nat>::empty(),
    {
        let s = EnumSet { bits: 0, marker: PhantomData };
        proof {
            assert forall|n: nat| !bit_is_set(0u32, n) by {
                if n < 32 {
                    let k = n as u32;
                    assert(k < 32 ==> (0u32 >> k) & 1 == 0) by (bit_vector);
                }
            }
            assert(s@ =~= Set::<nat>::empty());
        }
        s
    }

    /// Whether the set holds `e`.
    pub fn contains(&self, e: &E) -> (b: bool)
        ensures
            b == self.has(*e),
    {
        proof {
            e.ordinal_in_range();
        }
        let n = e.to_u32();
        (self.bits >> n) & 1 == 1
    }

    /// Puts `e` into the set. The result says whether it was missing before.
    pub fn insert(&mut self, e: E) -> (added: bool)
        ensures
            final(self)@ == old(self)@.insert(e.ordinal()),
            added == !old(self).has(e),
    {
        proof {
            e.ordinal_in_range();
        }
        let n = e.to_u32();
        let before = self.bits;
        let added = (before >> n) & 1 != 1;
        self.bits = before | (1u32 << n);
        proof {
            let after = self.bits;
            assert forall|m: nat| bit_is_set(after, m) == (bit_is_set(before, m) || m == n) by {
                if m < 32 {
                    let k = m as u32;
                    assert(k < 32 && n < 32 && after == before | (1u32 << n) ==> (((after >> k) & 1
                        == 1) == (((before >> k) & 1 == 1) || k == n))) by (bit_vector);
                }
            }
            assert(self@ =~= old(self)@.insert(e.ordinal()));
        }
        added
    }

    /// Takes `e` out of the set. The result says whether it was there.
    pub fn remove(&mut self, e: &E) -> (removed: bool)
        ensures
            final(self)@ == old(self)@.remove(e.ordinal()),
            removed == old(self).has(*e),
    {
        proof {
            e.ordinal_in_range();
        }
        let n = e.to_u32();
        let before = self.bits;
        let removed = (before >> n) & 1 == 1;
        self.bits = before & !(1u32 << n);
        proof {
            let after = self.bits;
            assert forall|m: nat| bit_is_set(after, m) == (bit_is_set(before, m) && m != n) by {
                if m < 32 {
                    let k = m as u32;
                    assert(k < 32 && n < 32 && after == before & !(1u32 << n) ==> (((after >> k) & 1
                        == 1) == (((before >> k) & 1 == 1) && k != n))) by (bit_vector);
                }
            }
            assert(self@ =~= old(self)@.remove(e.ordinal()));
        }
        removed
    }

    /// A copy of the set.
    pub fn copy(&self) -> (s: Self)
        ensures
            s@ == self@,
    {
        EnumSet { bits: self.bits, marker: PhantomData }
    }
}

} // verus!
