//! A timing session: the solve history, the statistics derived from it, the
//! timer, and the display values that follow them.

use crate::decimal::{
    digits, padded_seconds_string, padded_text, push_digits, round, round_micros, seconds_string,
    seconds_text, MAX_DECIMALS, MICROS_PER_SECOND,
};
use crate::record::{Cubes, SolveStats, PLUS_TWO_MICROS};
use crate::scramble::{is_scramble, move_count, move_options, Scrambler};
use crate::stats::{better, plain_mean, rolling_average, rolling_mean, trimmed_average, Average};
use crate::timer::{timer_step, Action, Key, Timer};
use vstd::prelude::*;
use vstd::string::{StrSliceExecFns, StringExecFns};

verus! {

/// The number of rolling statistics a session keeps.
pub const WINDOW_COUNT: usize = 10;

/// The window sizes of the rolling statistics, smallest first.
pub open spec fn window_size(i: int) -> nat {
    seq![3nat, 5, 12, 25, 50, 100, 500, 1000, 2000, 5000][i]
}

/// One rolling statistic: its window, its latest value and its best value.
#[derive(PartialEq, Eq, Structural, Clone, Copy, Debug)]
pub struct WindowStat {
    pub size: usize,
    pub current: Option<Average>,
    pub best: Option<Average>,
}

/// The window of the mean of three, the one statistic that is not trimmed.
pub const MEAN_WINDOW: usize = 3;

/// The value of a statistic over the solves `w` of its window: the plain mean
/// for the mean of three, the trimmed average for every other window.
pub open spec fn window_value(size: nat, w: Seq<SolveStats>, decimals: nat) -> Average {
    if size == MEAN_WINDOW {
        Average::Time(plain_mean(w, decimals) as u128)
    } else {
        trimmed_average(w, decimals)
    }
}

/// A statistic after the history `solves` is measured again: unchanged while
/// there are fewer solves than its window, and otherwise the new value,
/// which also becomes the best where there was none or it is better.
pub open spec fn refreshed(w: WindowStat, solves: Seq<SolveStats>, decimals: nat) -> WindowStat {
    if solves.len() < w.size {
        w
    } else {
        let a = window_value(w.size as nat, solves.take(w.size as int), decimals);
        WindowStat {
            size: w.size,
            current: Some(a),
            best: match w.best {
                None => Some(a),
                Some(b) => if better(a, b) {
                    Some(a)
                } else {
                    Some(b)
                },
            },
        }
    }
}

/// All statistics measured again over `solves`.
pub open spec fn all_refreshed(ws: Seq<WindowStat>, solves: Seq<SolveStats>, decimals: nat) -> Seq<
    WindowStat,
> {
    ws.map_values(|w: WindowStat| refreshed(w, solves, decimals))
}

/// Measuring the statistics twice over the same history gives what measuring
/// them once gives: they are a function of the history and the precision.
pub proof fn lemma_refresh_idempotent(ws: Seq<WindowStat>, solves: Seq<SolveStats>, decimals: nat)
    ensures
        all_refreshed(all_refreshed(ws, solves, decimals), solves, decimals) == all_refreshed(
            ws,
            solves,
            decimals,
        ),
{
    assert(all_refreshed(all_refreshed(ws, solves, decimals), solves, decimals) =~= all_refreshed(
        ws,
        solves,
        decimals,
    ));
}

/// How a solve is listed: `DNF`, or its time rounded to `decimals` places.
pub open spec fn solve_text(s: SolveStats, decimals: nat) -> Seq<char> {
    if s.dnf {
        "DNF"@
    } else {
        seconds_text(round_micros(s.micros as nat, decimals))
    }
}

/// A solve brought in from another timer: its time in parts, in
/// microseconds, and its scramble and comment.
pub struct ImportedSolve {
    pub segments: Vec<u64>,
    pub scramble: String,
    pub comment: String,
}

/// The sum of `s`.
pub open spec fn seq_sum(s: Seq<u64>) -> nat
    decreases s.len(),
{
    if s.len() == 0 {
        0
    } else {
        seq_sum(s.drop_last()) + s.last() as nat
    }
}

/// Whether `r` is the record that importing `item` at `now` makes.
pub open spec fn imported_as(r: SolveStats, item: ImportedSolve, now: u64, cube: Cubes) -> bool {
    &&& r.micros == seq_sum(item.segments@)
    &&& r.scramble == item.scramble
    &&& r.comment == item.comment
    &&& r.timestamp@ == digits(now as nat / MICROS_PER_SECOND as nat)
    &&& !r.plus2
    &&& !r.dnf
    &&& r.cube_type == cube
}

/// The sum of the parts of a time; `None` where it does not fit.
pub fn segment_total(segments: &Vec<u64>) -> (r: Option<u64>)
    ensures
        r is Some <==> seq_sum(segments@) <= u64::MAX,
        r is Some ==> r->0 == seq_sum(segments@),
{
    let mut total: u64 = 0;
    let mut i: usize = 0;
    while i < segments.len()
        invariant
            i <= segments@.len(),
            total == seq_sum(segments@.take(i as int)),
        decreases segments@.len() - i,
    {
        assert(segments@.take(i + 1).drop_last() =~= segments@.take(i as int));
        if segments[i] > u64::MAX - total {
            proof {
                lemma_seq_sum_prefix(segments@, i + 1);
            }
            return None;
        }
        total = total + segments[i];
        i = i + 1;
    }
    assert(segments@.take(i as int) =~= segments@);
    Some(total)
}

proof fn lemma_seq_sum_prefix(s: Seq<u64>, n: int)
    requires
        0 <= n <= s.len(),
    ensures
        seq_sum(s.take(n)) <= seq_sum(s),
    decreases s.len(),
{
    if n < s.len() {
        assert(s.drop_last().take(n) =~= s.take(n));
        lemma_seq_sum_prefix(s.drop_last(), n);
    } else {
        assert(s.take(n) =~= s);
    }
}

/// The timestamp of a solve made at `now`, in microseconds since the Unix
/// epoch: the whole seconds since the epoch, in decimal.
pub fn timestamp(now: u64) -> (r: String)
    ensures
        r@ == digits(now as nat / MICROS_PER_SECOND as nat),
{
    let mut s = String::new();
    push_digits(&mut s, (now / MICROS_PER_SECOND) as u128);
    assert(s@ =~= digits(now as nat / MICROS_PER_SECOND as nat));
    s
}

/// Whether the target architecture, named as Rust names it, is WebAssembly.
pub fn is_wasm(target_arch: &str) -> (r: bool)
    ensures
        r == (target_arch@ == seq!['w', 'a', 's', 'm', '3', '2']),
{
    let ghost expected = seq!['w', 'a', 's', 'm', '3', '2'];
    if target_arch.unicode_len() != 6 {
        return false;
    }
    let same = target_arch.get_char(0) == 'w' && target_arch.get_char(1) == 'a'
        && target_arch.get_char(2) == 's' && target_arch.get_char(3) == 'm'
        && target_arch.get_char(4) == '3' && target_arch.get_char(5) == '2';
    proof {
        if same {
            assert(target_arch@ =~= expected);
        }
    }
    same
}

/// The core state of one session.
#[derive(Debug)]
pub struct State {
    /// What the timer shows while idle.
    pub time: String,
    pub timer: Timer,
    /// The scramble for the next solve.
    pub scramble: String,
    /// The rolling statistics, one per window size.
    pub windows: Vec<WindowStat>,
    /// The plain mean of every solve.
    pub mean: Option<u128>,
    /// The history, newest solve first.
    pub solves: Vec<SolveStats>,
    /// Whether the last solve is on show for editing.
    pub show_solve: bool,
    /// Decimal places of the timer display.
    pub prec: usize,
    /// Decimal places of the statistics.
    pub ao5_prec: usize,
    /// Decimal places of the solve list.
    pub solves_prec: usize,
    /// The solve list as shown, one entry per solve.
    pub fmt_solves: Vec<String>,
    pub cube_type: Cubes,
    pub name: String,
}

impl State {
    /// Whether the solve list as shown matches the history.
    pub open spec fn listed(&self) -> bool {
        &&& self.fmt_solves@.len() == self.solves@.len()
        &&& forall|i: int|
            0 <= i < self.solves@.len() ==> self.fmt_solves@[i]@ == solve_text(
                self.solves@[i],
                self.solves_prec as nat,
            )
    }

    pub open spec fn wf(&self) -> bool {
        &&& self.windows@.len() == WINDOW_COUNT
        &&& forall|i: int| 0 <= i < WINDOW_COUNT ==> self.windows@[i].size == window_size(i)
        &&& forall|i: int| 0 <= i < self.solves@.len() ==> self.solves@[i].wf()
        &&& self.prec <= MAX_DECIMALS
        &&& self.ao5_prec <= MAX_DECIMALS
        &&& self.solves_prec <= MAX_DECIMALS
    }
}

fn empty_windows() -> (r: Vec<WindowStat>)
    ensures
        r@.len() == WINDOW_COUNT,
        forall|i: int|
            0 <= i < WINDOW_COUNT ==> r@[i] == (WindowStat {
                size: window_size(i) as usize,
                current: None,
                best: None,
            }),
{
    let mut r: Vec<WindowStat> = Vec::new();
    r.push(WindowStat { size: 3, current: None, best: None });
    r.push(WindowStat { size: 5, current: None, best: None });
    r.push(WindowStat { size: 12, current: None, best: None });
    r.push(WindowStat { size: 25, current: None, best: None });
    r.push(WindowStat { size: 50, current: None, best: None });
    r.push(WindowStat { size: 100, current: None, best: None });
    r.push(WindowStat { size: 500, current: None, best: None });
    r.push(WindowStat { size: 1000, current: None, best: None });
    r.push(WindowStat { size: 2000, current: None, best: None });
    r.push(WindowStat { size: 5000, current: None, best: None });
    r
}

impl Default for State {
    fn default() -> (r: Self)
        ensures
            r.wf(),
            r.solves@.len() == 0,
            r.fmt_solves@.len() == 0,
            r.mean is None,
            forall|i: int| 0 <= i < WINDOW_COUNT ==> r.windows@[i].current is None,
            forall|i: int| 0 <= i < WINDOW_COUNT ==> r.windows@[i].best is None,
            !r.timer.running,
            r.prec == 2,
            r.ao5_prec == 3,
            r.solves_prec == 2,
            r.cube_type == Cubes::ThreeByThree,
            r.time@ == padded_text(0, 2),
            r.scramble@.len() == 0,
    {
        State {
            time: padded_seconds_string(0, 2),
            timer: Timer::new(),
            scramble: String::new(),
            windows: empty_windows(),
            mean: None,
            solves: Vec::new(),
            show_solve: false,
            prec: 2,
            ao5_prec: 3,
            solves_prec: 2,
            fmt_solves: Vec::new(),
            cube_type: Cubes::ThreeByThree,
            name: String::from_str("Default"),
        }
    }
}

/// The timer application's session.
#[derive(Debug)]
pub struct Cubism {
    pub state: State,
}

impl Default for Cubism {
    fn default() -> (r: Self)
        ensures
            r.state.wf(),
            r.state.solves@.len() == 0,
            r.state.fmt_solves@.len() == 0,
            r.state.mean is None,
            forall|i: int| 0 <= i < WINDOW_COUNT ==> r.state.windows@[i].current is None,
            forall|i: int| 0 <= i < WINDOW_COUNT ==> r.state.windows@[i].best is None,
            !r.state.timer.running,
            r.state.prec == 2,
            r.state.ao5_prec == 3,
            r.state.solves_prec == 2,
            r.state.cube_type == Cubes::ThreeByThree,
            r.state.time@ == padded_text(0, 2),
            r.state.scramble@.len() == 0,
    {
        Cubism { state: State::default() }
    }
}

impl Cubism {
    /// Sets the idle display to zero at the timer's precision.
    pub fn reset_time(&mut self)
        requires
            old(self).state.prec <= MAX_DECIMALS,
        ensures
            final(self).state.time@ == padded_text(0, old(self).state.prec as nat),
            final(self).state.solves == old(self).state.solves,
            final(self).state.windows == old(self).state.windows,
            final(self).state.timer == old(self).state.timer,
            final(self).state.prec == old(self).state.prec,
            final(self).state.ao5_prec == old(self).state.ao5_prec,
            final(self).state.solves_prec == old(self).state.solves_prec,
            final(self).state.cube_type == old(self).state.cube_type,
            final(self).state.mean == old(self).state.mean,
            final(self).state.scramble == old(self).state.scramble,
            final(self).state.fmt_solves == old(self).state.fmt_solves,
            final(self).state.show_solve == old(self).state.show_solve,
            final(self).state.name == old(self).state.name,
    {
        self.state.time = padded_seconds_string(0, self.state.prec);
    }

    /// The recorded times, oldest first, for plotting.
    pub fn calculate_plottable(&self) -> (r: Vec<u64>)
        ensures
            r@.len() == self.state.solves@.len(),
            forall|i: int|
                0 <= i < r@.len() ==> r@[i] == self.state.solves@[self.state.solves@.len() - 1
                    - i].micros,
    {
        let n = self.state.solves.len();
        let mut r: Vec<u64> = Vec::new();
        let mut i: usize = 0;
        while i < n
            invariant
                i <= n == self.state.solves@.len(),
                r@.len() == i,
                forall|j: int| 0 <= j < i ==> r@[j] == self.state.solves@[n - 1 - j].micros,
            decreases n - i,
        {
            r.push(self.state.solves[n - 1 - i].micros);
            i = i + 1;
        }
        r
    }

    /// A new scramble for the session's puzzle.
    pub fn make_scramble(&self) -> (r: String)
        ensures
            exists|picks: Seq<usize>|
                is_scramble(
                    move_options(self.state.cube_type),
                    move_count(self.state.cube_type),
                    picks,
                    r@,
                ) && (self.state.cube_type != Cubes::OneByOne ==> picks.len() == move_count(
                    self.state.cube_type,
                )),
    {
        let scrambler = Scrambler::from(self.state.cube_type);
        scrambler.scramble()
    }

    /// Measures every statistic again over the history, and the mean of all
    /// solves; statistics whose window is not yet filled keep their values.
    pub fn refresh_averages(&mut self)
        requires
            old(self).state.wf(),
        ensures
            final(self).state.wf(),
            final(self).state.solves == old(self).state.solves,
            final(self).state.windows@ == all_refreshed(
                old(self).state.windows@,
                old(self).state.solves@,
                old(self).state.ao5_prec as nat,
            ),
            old(self).state.solves@.len() == 0 ==> final(self).state.mean == old(self).state.mean,
            old(self).state.solves@.len() > 0 ==> final(self).state.mean == Some(
                plain_mean(old(self).state.solves@, old(self).state.ao5_prec as nat) as u128,
            ),
            final(self).state.time == old(self).state.time,
            final(self).state.timer == old(self).state.timer,
            final(self).state.fmt_solves == old(self).state.fmt_solves,
            final(self).state.prec == old(self).state.prec,
            final(self).state.ao5_prec == old(self).state.ao5_prec,
            final(self).state.solves_prec == old(self).state.solves_prec,
            final(self).state.cube_type == old(self).state.cube_type,
            final(self).state.scramble == old(self).state.scramble,
            final(self).state.name == old(self).state.name,
            final(self).state.show_solve == old(self).state.show_solve,
    {
        let ghost before = self.state.windows@;
        let decimals = self.state.ao5_prec;
        let mut i: usize = 0;
        while i < WINDOW_COUNT
            invariant
                i <= WINDOW_COUNT,
                self.state.wf(),
                decimals == self.state.ao5_prec,
                self.state.solves == old(self).state.solves,
                before == old(self).state.windows@,
                self.state.windows@.len() == WINDOW_COUNT,
                forall|j: int|
                    0 <= j < i ==> self.state.windows@[j] == refreshed(
                        before[j],
                        self.state.solves@,
                        decimals as nat,
                    ),
                forall|j: int| i <= j < WINDOW_COUNT ==> self.state.windows@[j] == before[j],
                self.state.time == old(self).state.time,
                self.state.timer == old(self).state.timer,
                self.state.fmt_solves == old(self).state.fmt_solves,
                self.state.prec == old(self).state.prec,
                self.state.solves_prec == old(self).state.solves_prec,
                self.state.cube_type == old(self).state.cube_type,
                self.state.mean == old(self).state.mean,
                self.state.scramble == old(self).state.scramble,
                self.state.name == old(self).state.name,
                self.state.show_solve == old(self).state.show_solve,
            decreases WINDOW_COUNT - i,
        {
            let w = self.state.windows[i];
            assert(w.size >= 3) by {
                assert(w.size == window_size(i as int));
            }
            match window_average(&self.state.solves, w.size, decimals) {
                None => {},
                Some(a) => {
                    let best = match w.best {
                        None => Some(a),
                        Some(b) => if is_better(a, b) {
                            Some(a)
                        } else {
                            Some(b)
                        },
                    };
                    self.state.windows[i] = WindowStat { size: w.size, current: Some(a), best };
                },
            }
            i = i + 1;
        }
        assert(self.state.windows@ =~= all_refreshed(before, self.state.solves@, decimals as nat));
        let n = self.state.solves.len();
        if n > 0 {
            self.state.mean = rolling_mean(&self.state.solves, n, decimals);
            assert(self.state.solves@.take(n as int) =~= self.state.solves@);
        }
    }

    /// Renders the solve list again at the list's precision.
    pub fn redraw_solves(&mut self)
        requires
            old(self).state.solves_prec <= MAX_DECIMALS,
        ensures
            final(self).state.fmt_solves@.len() == old(self).state.solves@.len(),
            forall|i: int|
                0 <= i < old(self).state.solves@.len() ==> final(self).state.fmt_solves@[i]@
                    == solve_text(old(self).state.solves@[i], old(self).state.solves_prec as nat),
            final(self).state.solves == old(self).state.solves,
            final(self).state.windows == old(self).state.windows,
            final(self).state.time == old(self).state.time,
            final(self).state.timer == old(self).state.timer,
            final(self).state.mean == old(self).state.mean,
            final(self).state.prec == old(self).state.prec,
            final(self).state.ao5_prec == old(self).state.ao5_prec,
            final(self).state.solves_prec == old(self).state.solves_prec,
            final(self).state.cube_type == old(self).state.cube_type,
            final(self).state.scramble == old(self).state.scramble,
            final(self).state.name == old(self).state.name,
            final(self).state.show_solve == old(self).state.show_solve,
    {
        let mut list: Vec<String> = Vec::new();
        let n = self.state.solves.len();
        let mut i: usize = 0;
        while i < n
            invariant
                i <= n == self.state.solves@.len(),
                self.state.solves_prec <= MAX_DECIMALS,
                list@.len() == i,
                forall|j: int|
                    0 <= j < i ==> list@[j]@ == solve_text(
                        self.state.solves@[j],
                        self.state.solves_prec as nat,
                    ),
            decreases n - i,
        {
            list.push(solve_string(&self.state.solves[i], self.state.solves_prec));
            i = i + 1;
        }
        self.state.fmt_solves = list;
    }

    /// Takes an input signal that came at `now`, in microseconds since the
    /// Unix epoch. A stop records the solve at the head of the history with
    /// the current scramble, draws the next scramble, measures the statistics
    /// again and shows the rounded time; a cancel clears the display.
    pub fn on_key(&mut self, key: Key, now: u64) -> (r: Action)
        requires
            old(self).state.wf(),
        ensures
            final(self).state.wf(),
            (final(self).state.timer, r) == timer_step(old(self).state.timer, key, now),
            final(self).state.prec == old(self).state.prec,
            final(self).state.ao5_prec == old(self).state.ao5_prec,
            final(self).state.solves_prec == old(self).state.solves_prec,
            final(self).state.cube_type == old(self).state.cube_type,
            r is Stopped ==> final(self).state.listed(),
            r is Stopped ==> ({
                let e = r->Stopped_0;
                let new = final(self).state.solves@[0];
                &&& final(self).state.solves@.len() == old(self).state.solves@.len() + 1
                &&& final(self).state.solves@.drop_first() == old(self).state.solves@
                &&& new.micros == e
                &&& new.scramble == old(self).state.scramble
                &&& new.timestamp@ == digits(now as nat / MICROS_PER_SECOND as nat)
                &&& new.comment@.len() == 0
                &&& !new.plus2
                &&& !new.dnf
                &&& new.cube_type == old(self).state.cube_type
                &&& final(self).state.time@ == seconds_text(
                    round_micros(e as nat, old(self).state.prec as nat),
                )
                &&& final(self).state.windows@ == all_refreshed(
                    old(self).state.windows@,
                    final(self).state.solves@,
                    old(self).state.ao5_prec as nat,
                )
                &&& final(self).state.show_solve
                &&& exists|picks: Seq<usize>|
                    is_scramble(
                        move_options(old(self).state.cube_type),
                        move_count(old(self).state.cube_type),
                        picks,
                        final(self).state.scramble@,
                    )
            }),
            r is Cancelled ==> final(self).state.time@ == padded_text(
                0,
                old(self).state.prec as nat,
            ) && final(self).state.solves == old(self).state.solves,
            !(r is Stopped) && !(r is Cancelled) ==> final(self).state.time == old(self).state.time
                && final(self).state.solves == old(self).state.solves,
            !(r is Stopped) ==> final(self).state.windows == old(self).state.windows
                && final(self).state.mean == old(self).state.mean
                && final(self).state.scramble == old(self).state.scramble
                && final(self).state.fmt_solves == old(self).state.fmt_solves
                && final(self).state.show_solve == old(self).state.show_solve
                && final(self).state.name == old(self).state.name,
    {
        let action = self.state.timer.on_key(key, now);
        match action {
            Action::Stopped(elapsed) => {
                self.record_solve(elapsed, now);
            },
            Action::Cancelled => {
                self.reset_time();
            },
            _ => {},
        }
        action
    }

    /// Records a solve of `elapsed` microseconds that stopped at `now` at the
    /// head of the history, shows its rounded time, measures the statistics
    /// again and draws the next scramble.
    #[verifier::rlimit(40)]
    fn record_solve(&mut self, elapsed: u64, now: u64)
        requires
            old(self).state.wf(),
        ensures
            final(self).state.wf(),
            final(self).state.listed(),
            final(self).state.timer == old(self).state.timer,
            final(self).state.prec == old(self).state.prec,
            final(self).state.ao5_prec == old(self).state.ao5_prec,
            final(self).state.solves_prec == old(self).state.solves_prec,
            final(self).state.cube_type == old(self).state.cube_type,
            ({
                let new = final(self).state.solves@[0];
                &&& final(self).state.solves@.len() == old(self).state.solves@.len() + 1
                &&& final(self).state.solves@.drop_first() == old(self).state.solves@
                &&& new.micros == elapsed
                &&& new.scramble == old(self).state.scramble
                &&& new.timestamp@ == digits(now as nat / MICROS_PER_SECOND as nat)
                &&& new.comment@.len() == 0
                &&& !new.plus2
                &&& !new.dnf
                &&& new.cube_type == old(self).state.cube_type
                &&& final(self).state.time@ == seconds_text(
                    round_micros(elapsed as nat, old(self).state.prec as nat),
                )
                &&& final(self).state.windows@ == all_refreshed(
                    old(self).state.windows@,
                    final(self).state.solves@,
                    old(self).state.ao5_prec as nat,
                )
                &&& final(self).state.show_solve
                &&& exists|picks: Seq<usize>|
                    is_scramble(
                        move_options(old(self).state.cube_type),
                        move_count(old(self).state.cube_type),
                        picks,
                        final(self).state.scramble@,
                    )
            }),
    {
        let stamp = timestamp(now);
        let record = SolveStats::new(elapsed, self.state.scramble.clone(), stamp, self.state.cube_type);
        let ghost before = self.state.solves@;
        self.state.solves.insert(0, record);
        assert(self.state.solves@.drop_first() =~= before);
        assert forall|i: int| 0 <= i < self.state.solves@.len() implies self.state.solves@[i].wf() by {
            if i > 0 {
                assert(self.state.solves@[i] == before[i - 1]);
            }
        }
        let ghost inserted = self.state.solves@;
        self.state.time = seconds_string(round(elapsed, self.state.prec));
        self.after_edit();
        assert(self.state.solves@ == inserted);
        assert(self.state.cube_type == old(self).state.cube_type);
        let next = self.make_scramble();
        self.state.scramble = next;
        self.state.show_solve = true;
        proof {
            let picks = choose|picks: Seq<usize>|
                is_scramble(
                    move_options(old(self).state.cube_type),
                    move_count(old(self).state.cube_type),
                    picks,
                    next@,
                );
            assert(is_scramble(
                move_options(old(self).state.cube_type),
                move_count(old(self).state.cube_type),
                picks,
                self.state.scramble@,
            ));
        }
    }

    /// Adds a +2 penalty to the solve at `index` and measures the statistics
    /// again.
    pub fn apply_plus2(&mut self, index: usize)
        requires
            old(self).state.wf(),
            index < old(self).state.solves@.len(),
            old(self).state.solves@[index as int].base_micros() + PLUS_TWO_MICROS <= u64::MAX,
        ensures
            final(self).state.wf(),
            final(self).state.listed(),
            final(self).state.solves@ == old(self).state.solves@.update(
                index as int,
                old(self).state.solves@[index as int].plus2_applied(),
            ),
            final(self).state.windows@ == all_refreshed(
                old(self).state.windows@,
                final(self).state.solves@,
                old(self).state.ao5_prec as nat,
            ),
            final(self).state.time == old(self).state.time,
    {
        self.state.solves[index].apply_plus2();
        self.after_edit();
    }

    /// Marks the solve at `index` DNF and measures the statistics again.
    pub fn apply_dnf(&mut self, index: usize)
        requires
            old(self).state.wf(),
            index < old(self).state.solves@.len(),
        ensures
            final(self).state.wf(),
            final(self).state.listed(),
            final(self).state.solves@ == old(self).state.solves@.update(
                index as int,
                old(self).state.solves@[index as int].dnf_applied(),
            ),
            final(self).state.windows@ == all_refreshed(
                old(self).state.windows@,
                final(self).state.solves@,
                old(self).state.ao5_prec as nat,
            ),
            final(self).state.time == old(self).state.time,
    {
        self.state.solves[index].apply_dnf();
        self.after_edit();
    }

    /// Clears the penalties of the solve at `index` and measures the
    /// statistics again.
    pub fn clear_penalty(&mut self, index: usize)
        requires
            old(self).state.wf(),
            index < old(self).state.solves@.len(),
        ensures
            final(self).state.wf(),
            final(self).state.listed(),
            final(self).state.solves@ == old(self).state.solves@.update(
                index as int,
                old(self).state.solves@[index as int].penalty_cleared(),
            ),
            final(self).state.windows@ == all_refreshed(
                old(self).state.windows@,
                final(self).state.solves@,
                old(self).state.ao5_prec as nat,
            ),
            final(self).state.time == old(self).state.time,
    {
        self.state.solves[index].clear_penalty();
        self.after_edit();
    }

    /// Measures the statistics again and redraws the solve list after the
    /// history changed.
    fn after_edit(&mut self)
        requires
            old(self).state.wf(),
        ensures
            final(self).state.wf(),
            final(self).state.listed(),
            final(self).state.solves == old(self).state.solves,
            final(self).state.windows@ == all_refreshed(
                old(self).state.windows@,
                old(self).state.solves@,
                old(self).state.ao5_prec as nat,
            ),
            final(self).state.time == old(self).state.time,
            final(self).state.timer == old(self).state.timer,
            final(self).state.prec == old(self).state.prec,
            final(self).state.ao5_prec == old(self).state.ao5_prec,
            final(self).state.solves_prec == old(self).state.solves_prec,
            final(self).state.cube_type == old(self).state.cube_type,
            final(self).state.scramble == old(self).state.scramble,
            final(self).state.name == old(self).state.name,
            final(self).state.show_solve == old(self).state.show_solve,
    {
        self.refresh_averages();
        self.redraw_solves();
    }

    /// Removes the solve at `index` and measures the statistics again. When
    /// the newest solve goes, the idle display shows the new newest solve's
    /// rounded time, or zero when none is left.
    pub fn delete(&mut self, index: usize)
        requires
            old(self).state.wf(),
            index < old(self).state.solves@.len(),
        ensures
            final(self).state.wf(),
            final(self).state.listed(),
            final(self).state.solves@ == old(self).state.solves@.remove(index as int),
            final(self).state.windows@ == all_refreshed(
                old(self).state.windows@,
                final(self).state.solves@,
                old(self).state.ao5_prec as nat,
            ),
            index == 0 && final(self).state.solves@.len() > 0 ==> final(self).state.time@
                == seconds_text(
                round_micros(final(self).state.solves@[0].micros as nat, old(self).state.prec as nat),
            ),
            index == 0 && final(self).state.solves@.len() == 0 ==> final(self).state.time@
                == padded_text(0, old(self).state.prec as nat),
            index != 0 ==> final(self).state.time == old(self).state.time,
            index == 0 || final(self).state.solves@.len() == 0 ==> !final(self).state.show_solve,
    {
        let ghost before = self.state.solves@;
        self.state.solves.remove(index);
        assert forall|i: int| 0 <= i < self.state.solves@.len() implies self.state.solves@[i].wf() by {
            if i < index {
                assert(self.state.solves@[i] == before[i]);
            } else {
                assert(self.state.solves@[i] == before[i + 1]);
            }
        }
        if index == 0 {
            if self.state.solves.len() > 0 {
                self.state.time = seconds_string(round(self.state.solves[0].micros, self.state.prec));
            } else {
                self.reset_time();
            }
            self.state.show_solve = false;
        }
        if self.state.solves.len() == 0 {
            self.state.show_solve = false;
        }
        self.after_edit();
    }

    /// Changes the precision of the statistics and measures them again.
    pub fn set_ao5_prec(&mut self, decimals: usize)
        requires
            old(self).state.wf(),
            decimals <= MAX_DECIMALS,
        ensures
            final(self).state.wf(),
            final(self).state.ao5_prec == decimals,
            final(self).state.solves == old(self).state.solves,
            final(self).state.windows@ == all_refreshed(
                old(self).state.windows@,
                old(self).state.solves@,
                decimals as nat,
            ),
    {
        self.state.ao5_prec = decimals;
        self.refresh_averages();
    }

    /// Changes the precision of the timer display; the idle display shows the
    /// newest solve again at that precision.
    pub fn set_prec(&mut self, decimals: usize)
        requires
            old(self).state.wf(),
            decimals <= MAX_DECIMALS,
        ensures
            final(self).state.wf(),
            final(self).state.prec == decimals,
            final(self).state.solves == old(self).state.solves,
            final(self).state.windows == old(self).state.windows,
            old(self).state.solves@.len() > 0 ==> final(self).state.time@ == seconds_text(
                round_micros(old(self).state.solves@[0].micros as nat, decimals as nat),
            ),
            old(self).state.solves@.len() == 0 ==> final(self).state.time == old(self).state.time,
    {
        self.state.prec = decimals;
        if self.state.solves.len() > 0 {
            self.state.time = seconds_string(round(self.state.solves[0].micros, decimals));
        }
    }

    /// Changes the precision of the solve list and redraws it.
    pub fn set_solves_prec(&mut self, decimals: usize)
        requires
            old(self).state.wf(),
            decimals <= MAX_DECIMALS,
        ensures
            final(self).state.wf(),
            final(self).state.solves_prec == decimals,
            final(self).state.solves == old(self).state.solves,
            final(self).state.fmt_solves@.len() == old(self).state.solves@.len(),
            forall|i: int|
                0 <= i < old(self).state.solves@.len() ==> final(self).state.fmt_solves@[i]@
                    == solve_text(old(self).state.solves@[i], decimals as nat),
    {
        self.state.solves_prec = decimals;
        self.redraw_solves();
    }

    /// What the timer shows at `now`: while running, the time so far rounded
    /// to the timer's precision with exactly that many decimals; while idle,
    /// the idle display.
    pub fn display(&self, now: u64) -> (r: String)
        requires
            self.state.prec <= MAX_DECIMALS,
        ensures
            self.state.timer.running ==> r@ == padded_text(
                round_micros(
                    crate::timer::elapsed_between(self.state.timer.start, now) as nat,
                    self.state.prec as nat,
                ),
                self.state.prec as nat,
            ),
            !self.state.timer.running ==> r@ == self.state.time@,
    {
        if self.state.timer.running {
            padded_seconds_string(
                round(self.state.timer.elapsed(now), self.state.prec),
                self.state.prec,
            )
        } else {
            self.state.time.clone()
        }
    }

    /// Brings in a batch of solves from another timer, in the batch's order,
    /// so that its last solve ends up newest; then measures the statistics
    /// once. Nothing changes, and the result is false, when a time does not
    /// fit.
    pub fn import_solves(&mut self, batch: Vec<ImportedSolve>, now: u64) -> (r: bool)
        requires
            old(self).state.wf(),
            old(self).state.solves@.len() + batch@.len() <= usize::MAX,
        ensures
            final(self).state.wf(),
            r ==> final(self).state.listed(),
            r == forall|i: int|
                0 <= i < batch@.len() ==> seq_sum(#[trigger] batch@[i].segments@) <= u64::MAX,
            !r ==> final(self).state.solves == old(self).state.solves && final(self).state.windows
                == old(self).state.windows,
            r ==> final(self).state.solves@.len() == old(self).state.solves@.len() + batch@.len(),
            r ==> final(self).state.solves@.skip(batch@.len() as int) == old(self).state.solves@,
            r ==> forall|i: int|
                0 <= i < batch@.len() ==> imported_as(
                    #[trigger] final(self).state.solves@[i],
                    batch@[batch@.len() - 1 - i],
                    now,
                    old(self).state.cube_type,
                ),
            r ==> final(self).state.windows@ == all_refreshed(
                old(self).state.windows@,
                final(self).state.solves@,
                old(self).state.ao5_prec as nat,
            ),
    {
        let n = batch.len();
        let mut totals: Vec<u64> = Vec::new();
        let mut i: usize = 0;
        while i < n
            invariant
                i <= n == batch@.len(),
                totals@.len() == i,
                forall|j: int| 0 <= j < i ==> totals@[j] == seq_sum(#[trigger] batch@[j].segments@),
                self.state.wf(),
                self.state.solves == old(self).state.solves,
                self.state.windows == old(self).state.windows,
            decreases n - i,
        {
            match segment_total(&batch[i].segments) {
                None => {
                    return false;
                },
                Some(t) => {
                    totals.push(t);
                },
            }
            i = i + 1;
        }
        let ghost items = batch@;
        let mut batch = batch;
        let mut fresh: Vec<SolveStats> = Vec::new();
        let mut k: usize = 0;
        while k < n
            invariant
                k <= n == items.len(),
                totals@.len() == n,
                forall|j: int| 0 <= j < n ==> totals@[j] == seq_sum(#[trigger] items[j].segments@),
                batch@ == items.take(n - k),
                fresh@.len() == k,
                self.state.wf(),
                self.state.solves == old(self).state.solves,
                self.state.windows == old(self).state.windows,
                self.state.cube_type == old(self).state.cube_type,
                self.state.ao5_prec == old(self).state.ao5_prec,
                old(self).state.solves@.len() + n <= usize::MAX,
                forall|j: int|
                    0 <= j < k ==> imported_as(
                        #[trigger] fresh@[j],
                        items[n - 1 - j],
                        now,
                        self.state.cube_type,
                    ),
            decreases n - k,
        {
            let item = batch.pop().unwrap();
            assert(item == items[n - 1 - k]);
            assert(batch@ =~= items.take(n - k - 1));
            let stamp = timestamp(now);
            let ImportedSolve { segments, scramble, comment } = item;
            let mut record = SolveStats::new(totals[n - 1 - k], scramble, stamp, self.state.cube_type);
            record.comment = comment;
            fresh.push(record);
            k = k + 1;
        }
        let ghost before = self.state.solves@;
        let mut rest = Vec::new();
        std::mem::swap(&mut rest, &mut self.state.solves);
        fresh.append(&mut rest);
        self.state.solves = fresh;
        assert(self.state.solves@.skip(n as int) =~= before);
        assert forall|i: int| 0 <= i < self.state.solves@.len() implies self.state.solves@[i].wf() by {
            if i >= n {
                assert(self.state.solves@[i] == before[i - n]);
            }
        }
        self.after_edit();
        true
    }
}

/// The value of the statistic with window `size` over the newest solves, as
/// `window_value` says; `None` when there are fewer solves than that.
pub fn window_average(solves: &Vec<SolveStats>, size: usize, decimals: usize) -> (r: Option<
    Average,
>)
    requires
        size >= MEAN_WINDOW,
        decimals <= MAX_DECIMALS,
    ensures
        solves@.len() < size ==> r is None,
        solves@.len() >= size ==> r == Some(
            window_value(size as nat, solves@.take(size as int), decimals as nat),
        ),
{
    if size == MEAN_WINDOW {
        match rolling_mean(solves, size, decimals) {
            None => None,
            Some(m) => Some(Average::Time(m)),
        }
    } else {
        rolling_average(solves, size, decimals)
    }
}

/// Whether `a` is a better result than `b`, as `better` says.
pub fn is_better(a: Average, b: Average) -> (r: bool)
    ensures
        r == better(a, b),
{
    match (a, b) {
        (Average::Time(x), Average::Time(y)) => x < y,
        (Average::Time(_), Average::Dnf) => true,
        (Average::Dnf, _) => false,
    }
}

/// How a solve is listed: `DNF`, or its time rounded to `decimals` places.
pub fn solve_string(s: &SolveStats, decimals: usize) -> (r: String)
    requires
        decimals <= MAX_DECIMALS,
    ensures
        r@ == solve_text(*s, decimals as nat),
{
    if s.dnf {
        String::from_str("DNF")
    } else {
        seconds_string(round(s.micros, decimals))
    }
}

} // verus!
