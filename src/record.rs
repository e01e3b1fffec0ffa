//! Solve records: one timed attempt with its scramble and penalty flags.

use crate::decimal::MICROS_PER_SECOND;
use vstd::prelude::*;
use vstd::string::StringExecFns;

verus! {

/// The time a +2 penalty adds, in microseconds.
pub const PLUS_TWO_MICROS: u64 = 2 * MICROS_PER_SECOND;

/// The puzzle a solve was made on.
#[derive(PartialEq, Eq, Structural, Clone, Copy, Debug)]
pub enum Cubes {
    ThreeByThree,
    TwoByTwo,
    OneByOne,
    FourByFour,
    FiveByFive,
}

/// The short name of a puzzle, such as `3x3`.
pub open spec fn cube_name(c: Cubes) -> Seq<char> {
    match c {
        Cubes::OneByOne => "1x1"@,
        Cubes::TwoByTwo => "2x2"@,
        Cubes::ThreeByThree => "3x3"@,
        Cubes::FourByFour => "4x4"@,
        Cubes::FiveByFive => "5x5"@,
    }
}

impl Cubes {
    /// The short name of the puzzle, such as `3x3`.
    pub fn name(&self) -> (r: String)
        ensures
            r@ == cube_name(*self),
    {
        match self {
            Cubes::OneByOne => String::from_str("1x1"),
            Cubes::TwoByTwo => String::from_str("2x2"),
            Cubes::ThreeByThree => String::from_str("3x3"),
            Cubes::FourByFour => String::from_str("4x4"),
            Cubes::FiveByFive => String::from_str("5x5"),
        }
    }
}

/// One solve of the history.
///
/// `micros` is the recorded duration in microseconds. A +2 penalty is stored
/// in it: while `plus2` holds, it is the measured time plus two seconds. A DNF
/// keeps the measured time.
#[derive(Clone, Debug)]
pub struct SolveStats {
    pub micros: u64,
    pub scramble: String,
    pub timestamp: String,
    pub comment: String,
    pub plus2: bool,
    pub dnf: bool,
    pub cube_type: Cubes,
}

impl SolveStats {
    /// The penalty flags exclude each other, and a +2 time holds the two
    /// seconds it added.
    pub open spec fn wf(&self) -> bool {
        &&& !(self.plus2 && self.dnf)
        &&& self.plus2 ==> self.micros >= PLUS_TWO_MICROS
    }

    /// The time as measured, without a +2 penalty.
    pub open spec fn base_micros(&self) -> nat {
        if self.plus2 {
            (self.micros - PLUS_TWO_MICROS) as nat
        } else {
            self.micros as nat
        }
    }

    /// The same solve with only its time and flags replaced.
    pub open spec fn with_penalty(&self, micros: int, plus2: bool, dnf: bool) -> SolveStats {
        SolveStats {
            micros: micros as u64,
            scramble: self.scramble,
            timestamp: self.timestamp,
            comment: self.comment,
            plus2,
            dnf,
            cube_type: self.cube_type,
        }
    }

    /// The solve after a +2 penalty is applied: two seconds on the measured
    /// time, and no DNF.
    pub open spec fn plus2_applied(&self) -> SolveStats {
        self.with_penalty(self.base_micros() + PLUS_TWO_MICROS, true, false)
    }

    /// The solve after it is marked DNF: the measured time, and no +2.
    pub open spec fn dnf_applied(&self) -> SolveStats {
        self.with_penalty(self.base_micros() as int, false, true)
    }

    /// The solve with its penalties cleared: the measured time, no flags.
    pub open spec fn penalty_cleared(&self) -> SolveStats {
        self.with_penalty(self.base_micros() as int, false, false)
    }

    /// A new solve of `micros` microseconds with no penalty and no comment.
    pub fn new(micros: u64, scramble: String, timestamp: String, cube_type: Cubes) -> (r: Self)
        ensures
            r.micros == micros,
            r.scramble == scramble,
            r.timestamp == timestamp,
            r.comment@ == Seq::<char>::empty(),
            !r.plus2,
            !r.dnf,
            r.cube_type == cube_type,
            r.wf(),
    {
        SolveStats {
            micros,
            scramble,
            timestamp,
            comment: String::new(),
            plus2: false,
            dnf: false,
            cube_type,
        }
    }

    /// Applies a +2 penalty; a solve that already has one is left as it is.
    pub fn apply_plus2(&mut self)
        requires
            old(self).wf(),
            old(self).base_micros() + PLUS_TWO_MICROS <= u64::MAX,
        ensures
            *final(self) == old(self).plus2_applied(),
            final(self).wf(),
    {
        if !self.plus2 {
            self.micros = self.micros + PLUS_TWO_MICROS;
        }
        self.plus2 = true;
        self.dnf = false;
    }

    /// Marks the solve DNF, taking back a +2 penalty first.
    pub fn apply_dnf(&mut self)
        requires
            old(self).wf(),
        ensures
            *final(self) == old(self).dnf_applied(),
            final(self).wf(),
    {
        if self.plus2 {
            self.micros = self.micros - PLUS_TWO_MICROS;
        }
        self.plus2 = false;
        self.dnf = true;
    }

    /// Clears both penalties, taking back a +2 penalty.
    pub fn clear_penalty(&mut self)
        requires
            old(self).wf(),
        ensures
            *final(self) == old(self).penalty_cleared(),
            final(self).wf(),
    {
        if self.plus2 {
            self.micros = self.micros - PLUS_TWO_MICROS;
        }
        self.plus2 = false;
        self.dnf = false;
    }
}

impl Default for SolveStats {
    fn default() -> (r: Self)
        ensures
            r.micros == 0,
            r.scramble@ == Seq::<char>::empty(),
            r.timestamp@ == Seq::<char>::empty(),
            r.comment@ == Seq::<char>::empty(),
            !r.plus2,
            !r.dnf,
            r.cube_type == Cubes::ThreeByThree,
    {
        SolveStats {
            micros: 0,
            scramble: String::new(),
            timestamp: String::new(),
            comment: String::new(),
            plus2: false,
            dnf: false,
            cube_type: Cubes::ThreeByThree,
        }
    }
}

/// A +2 applied to a solve without one and then cleared gives back the time
/// it had before, with neither flag set.
pub proof fn lemma_plus2_then_clear(r: SolveStats)
    requires
        r.wf(),
        !r.plus2,
        r.micros + PLUS_TWO_MICROS <= u64::MAX,
    ensures
        r.plus2_applied().wf(),
        r.plus2_applied().penalty_cleared().micros == r.micros,
        !r.plus2_applied().penalty_cleared().plus2,
        !r.plus2_applied().penalty_cleared().dnf,
{
}

/// A DNF applied to a solve without a +2 and then cleared leaves its time as it
/// was, with neither flag set: a DNF neither adds nor removes time.
pub proof fn lemma_dnf_then_clear(r: SolveStats)
    requires
        r.wf(),
        !r.plus2,
    ensures
        r.dnf_applied().wf(),
        r.dnf_applied().micros == r.micros,
        r.dnf_applied().penalty_cleared().micros == r.micros,
        !r.dnf_applied().penalty_cleared().plus2,
        !r.dnf_applied().penalty_cleared().dnf,
{
}

} // verus!
