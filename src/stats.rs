//! Trimmed rolling averages and plain means over the solve history, newest
//! solve first.

use crate::decimal::{
    div_round, div_round_u128, lemma_step_bounds, seconds_string, seconds_text, step_of, step_u64,
    MAX_DECIMALS,
};
use crate::record::SolveStats;
use vstd::prelude::*;
use vstd::string::StringExecFns;

verus! {

/// The result of an average: DNF, or a duration in microseconds that is
/// already rounded.
#[derive(PartialEq, Eq, Structural, Clone, Copy, Debug)]
pub enum Average {
    Dnf,
    Time(u128),
}

/// How many solves are DNF.
pub open spec fn dnf_count(s: Seq<SolveStats>) -> nat
    decreases s.len(),
{
    if s.len() == 0 {
        0
    } else {
        dnf_count(s.drop_last()) + if s.last().dnf {
            1nat
        } else {
            0nat
        }
    }
}

/// How many solves are not DNF.
pub open spec fn ok_count(s: Seq<SolveStats>) -> nat
    decreases s.len(),
{
    if s.len() == 0 {
        0
    } else {
        ok_count(s.drop_last()) + if s.last().dnf {
            0nat
        } else {
            1nat
        }
    }
}

/// The sum of the times of the solves that are not DNF.
pub open spec fn ok_sum(s: Seq<SolveStats>) -> nat
    decreases s.len(),
{
    if s.len() == 0 {
        0
    } else {
        ok_sum(s.drop_last()) + if s.last().dnf {
            0nat
        } else {
            s.last().micros as nat
        }
    }
}

/// The sum of the recorded times of all solves, DNF or not.
pub open spec fn total_sum(s: Seq<SolveStats>) -> nat
    decreases s.len(),
{
    if s.len() == 0 {
        0
    } else {
        total_sum(s.drop_last()) + s.last().micros as nat
    }
}

/// The largest time among the solves that are not DNF; zero if there is none.
pub open spec fn ok_max(s: Seq<SolveStats>) -> nat
    decreases s.len(),
{
    if s.len() == 0 {
        0
    } else if s.last().dnf {
        ok_max(s.drop_last())
    } else if ok_count(s.drop_last()) == 0 || ok_max(s.drop_last()) < s.last().micros {
        s.last().micros as nat
    } else {
        ok_max(s.drop_last())
    }
}

/// The smallest time among the solves that are not DNF; zero if there is none.
pub open spec fn ok_min(s: Seq<SolveStats>) -> nat
    decreases s.len(),
{
    if s.len() == 0 {
        0
    } else if s.last().dnf {
        ok_min(s.drop_last())
    } else if ok_count(s.drop_last()) == 0 || s.last().micros < ok_min(s.drop_last()) {
        s.last().micros as nat
    } else {
        ok_min(s.drop_last())
    }
}

/// The sum that a trimmed average divides: the times that are not DNF, less
/// one largest and one smallest; with exactly one DNF the largest counts
/// again, in place of the DNF.
pub open spec fn trimmed_sum(w: Seq<SolveStats>) -> int {
    ok_sum(w) - ok_max(w) - ok_min(w) + if dnf_count(w) == 1 {
        ok_max(w) as int
    } else {
        0
    }
}

/// What the trimmed sum is divided by: the solves that are not DNF, less two,
/// and one more where exactly one DNF counts as the largest time.
pub open spec fn trimmed_divisor(w: Seq<SolveStats>) -> int {
    ok_count(w) - 2 + if dnf_count(w) == 1 {
        1int
    } else {
        0
    }
}

/// The trimmed average of the solves `w`, rounded to `decimals` places:
/// DNF when two or more of them are DNF.
pub open spec fn trimmed_average(w: Seq<SolveStats>, decimals: nat) -> Average {
    if dnf_count(w) >= 2 {
        Average::Dnf
    } else {
        Average::Time(
            (div_round(trimmed_sum(w) as nat, (trimmed_divisor(w) * step_of(decimals)) as nat)
                * step_of(decimals)) as u128,
        )
    }
}

/// The plain mean of the recorded times of `w`, rounded to `decimals` places.
pub open spec fn plain_mean(w: Seq<SolveStats>, decimals: nat) -> nat {
    div_round(total_sum(w), w.len() * step_of(decimals)) * step_of(decimals)
}

/// How an average is shown: `DNF`, or the seconds without trailing zeros.
pub open spec fn average_text(a: Average) -> Seq<char> {
    match a {
        Average::Dnf => "DNF"@,
        Average::Time(m) => seconds_text(m as nat),
    }
}

/// Whether `a` is a better result than `b`: any time beats a DNF, and a
/// shorter time beats a longer one.
pub open spec fn better(a: Average, b: Average) -> bool {
    match (a, b) {
        (Average::Time(x), Average::Time(y)) => x < y,
        (Average::Time(_), Average::Dnf) => true,
        (Average::Dnf, _) => false,
    }
}

proof fn lemma_counts(s: Seq<SolveStats>)
    ensures
        ok_count(s) + dnf_count(s) == s.len(),
        total_sum(s) <= s.len() * u64::MAX,
        ok_sum(s) <= ok_count(s) * u64::MAX,
        ok_count(s) >= 1 ==> ok_min(s) <= ok_max(s) <= u64::MAX,
        ok_count(s) >= 1 ==> ok_sum(s) >= ok_max(s),
        ok_count(s) >= 1 ==> ok_sum(s) - ok_min(s) <= (ok_count(s) - 1) * u64::MAX,
        ok_count(s) >= 2 ==> ok_sum(s) >= ok_max(s) + ok_min(s),
        ok_count(s) >= 2 ==> ok_sum(s) - ok_max(s) - ok_min(s) <= (ok_count(s) - 2) * u64::MAX,
    decreases s.len(),
{
    if s.len() > 0 {
        lemma_counts(s.drop_last());
    }
}

/// The trimmed average of the newest `window` solves, rounded to `decimals`
/// places; `None` when there are fewer solves than that.
pub fn rolling_average(solves: &Vec<SolveStats>, window: usize, decimals: usize) -> (r: Option<
    Average,
>)
    requires
        window >= 3,
        decimals <= MAX_DECIMALS,
    ensures
        solves@.len() < window ==> r is None,
        solves@.len() >= window ==> r == Some(
            trimmed_average(solves@.take(window as int), decimals as nat),
        ),
{
    if solves.len() < window {
        return None;
    }
    let ghost w = solves@.take(window as int);
    let mut dnfs: usize = 0;
    let mut oks: usize = 0;
    let mut sum: u128 = 0;
    let mut max: u64 = 0;
    let mut min: u64 = 0;
    let mut i: usize = 0;
    while i < window
        invariant
            i <= window <= solves@.len(),
            w == solves@.take(window as int),
            dnfs == dnf_count(w.take(i as int)),
            oks == ok_count(w.take(i as int)),
            sum == ok_sum(w.take(i as int)),
            max == ok_max(w.take(i as int)),
            min == ok_min(w.take(i as int)),
        decreases window - i,
    {
        let ghost p = w.take(i as int);
        let ghost q = w.take(i + 1);
        assert(q.drop_last() =~= p);
        assert(q.last() == solves@[i as int]);
        proof {
            lemma_counts(p);
            assert(oks * u64::MAX + u64::MAX <= u128::MAX) by (nonlinear_arith)
                requires
                    oks <= i,
                    i < usize::MAX,
            ;
        }
        let s = &solves[i];
        if s.dnf {
            dnfs = dnfs + 1;
        } else {
            if oks == 0 || max < s.micros {
                max = s.micros;
            }
            if oks == 0 || s.micros < min {
                min = s.micros;
            }
            sum = sum + s.micros as u128;
            oks = oks + 1;
        }
        i = i + 1;
        assert(w.take(i as int) =~= q);
    }
    assert(w.take(window as int) =~= w);
    if dnfs >= 2 {
        return Some(Average::Dnf);
    }
    proof {
        lemma_counts(w);
        lemma_step_bounds(decimals as nat);
    }
    let trimmed: u128 = if dnfs == 0 {
        sum - max as u128 - min as u128
    } else {
        sum - min as u128
    };
    let divisor: u128 = (window - 2) as u128;
    let step = step_u64(decimals) as u128;
    proof {
        assert(divisor * step <= usize::MAX * 1_000_000) by (nonlinear_arith)
            requires
                divisor <= usize::MAX,
                step <= 1_000_000,
        ;
        assert(trimmed <= divisor * u64::MAX);
        assert(divisor * step >= 1) by (nonlinear_arith)
            requires
                divisor >= 1,
                step >= 1,
        ;
        assert(trimmed as int / (divisor * step) as int <= u64::MAX) by (nonlinear_arith)
            requires
                trimmed <= divisor * u64::MAX,
                divisor >= 1,
                step >= 1,
        ;
    }
    let units = div_round_u128(trimmed, divisor * step);
    proof {
        assert(units * step <= u64::MAX * 1_000_000 + 1_000_000) by (nonlinear_arith)
            requires
                units <= u64::MAX + 1,
                step <= 1_000_000,
        ;
    }
    Some(Average::Time(units * step))
}

/// The plain mean of the recorded times of the newest `window` solves, DNF
/// or not, rounded to `decimals` places; `None` when there are fewer solves.
pub fn rolling_mean(solves: &Vec<SolveStats>, window: usize, decimals: usize) -> (r: Option<u128>)
    requires
        window >= 1,
        decimals <= MAX_DECIMALS,
    ensures
        solves@.len() < window ==> r is None,
        solves@.len() >= window ==> r is Some && r->0 == plain_mean(
            solves@.take(window as int),
            decimals as nat,
        ),
{
    if solves.len() < window {
        return None;
    }
    let ghost w = solves@.take(window as int);
    let mut total: u128 = 0;
    let mut i: usize = 0;
    while i < window
        invariant
            i <= window <= solves@.len(),
            w == solves@.take(window as int),
            total == total_sum(w.take(i as int)),
        decreases window - i,
    {
        let ghost p = w.take(i as int);
        let ghost q = w.take(i + 1);
        assert(q.drop_last() =~= p);
        proof {
            lemma_counts(p);
            assert(i * u64::MAX + u64::MAX <= u128::MAX) by (nonlinear_arith)
                requires
                    i < usize::MAX,
            ;
        }
        total = total + solves[i].micros as u128;
        i = i + 1;
        assert(w.take(i as int) =~= q);
    }
    assert(w.take(window as int) =~= w);
    proof {
        lemma_counts(w);
        lemma_step_bounds(decimals as nat);
    }
    let n = window as u128;
    let step = step_u64(decimals) as u128;
    proof {
        assert(n * step >= 1 && n * step <= usize::MAX * 1_000_000) by (nonlinear_arith)
            requires
                1 <= n <= usize::MAX,
                1 <= step <= 1_000_000,
        ;
        assert(total as int / (n * step) as int <= u64::MAX) by (nonlinear_arith)
            requires
                total <= n * u64::MAX,
                n >= 1,
                step >= 1,
        ;
    }
    let units = div_round_u128(total, n * step);
    proof {
        assert(units * step <= u64::MAX * 1_000_000 + 1_000_000) by (nonlinear_arith)
            requires
                units <= u64::MAX + 1,
                step <= 1_000_000,
        ;
    }
    Some(units * step)
}

/// Renders an average: `DNF`, or the seconds without trailing zeros.
pub fn average_string(a: Average) -> (r: String)
    ensures
        r@ == average_text(a),
{
    match a {
        Average::Dnf => String::from_str("DNF"),
        Average::Time(m) => seconds_string(m),
    }
}

/// The trimmed average of the solves at indices `0..=number`, rounded to
/// `decimals` places and rendered; `None` when there are not that many.
pub fn average(solves: &Vec<SolveStats>, number: usize, decimals: usize) -> (r: Option<String>)
    requires
        2 <= number < usize::MAX,
        decimals <= MAX_DECIMALS,
    ensures
        solves@.len() <= number ==> r is None,
        solves@.len() > number ==> r is Some && r->0@ == average_text(
            trimmed_average(solves@.take(number + 1), decimals as nat),
        ),
{
    match rolling_average(solves, number + 1, decimals) {
        None => None,
        Some(a) => Some(average_string(a)),
    }
}

/// The plain mean of the solves at indices `0..=number`, DNF or not, rounded
/// to `decimals` places and rendered; `None` when there are not that many.
pub fn mean(solves: &Vec<SolveStats>, number: usize, decimals: usize) -> (r: Option<String>)
    requires
        number < usize::MAX,
        decimals <= MAX_DECIMALS,
    ensures
        solves@.len() <= number ==> r is None,
        solves@.len() > number ==> r is Some && r->0@ == seconds_text(
            plain_mean(solves@.take(number + 1), decimals as nat),
        ),
{
    match rolling_mean(solves, number + 1, decimals) {
        None => None,
        Some(m) => Some(seconds_string(m)),
    }
}

} // verus!
