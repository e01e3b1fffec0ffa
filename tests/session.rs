use cubism::record::{Cubes, SolveStats};
use cubism::session::{ImportedSolve, segment_total, solve_string, Cubism, State, WINDOW_COUNT};
use cubism::stats::Average;
use cubism::timer::{Action, Key};

fn add(c: &mut Cubism, micros: u64) {
    let r = SolveStats::new(micros, "R".to_string(), "0".to_string(), Cubes::ThreeByThree);
    c.state.solves.insert(0, r);
}

fn session_of(times_oldest_first: &[u64]) -> Cubism {
    let mut c = Cubism::default();
    for t in times_oldest_first {
        add(&mut c, *t);
    }
    c.refresh_averages();
    c.redraw_solves();
    c
}

#[test]
fn default_state() {
    let s = State::default();
    assert_eq!(s.time, "0.00");
    assert_eq!(s.windows.len(), WINDOW_COUNT);
    assert_eq!(s.windows[0].size, 3);
    assert_eq!(s.windows[9].size, 5000);
    assert_eq!(s.name, "Default");
}

#[test]
fn stop_records_a_solve_at_the_head() {
    let mut c = Cubism::default();
    c.state.scramble = "R U F".to_string();
    assert_eq!(c.on_key(Key::Space, 1_700_000_000_000_000), Action::Started);
    assert!(c.state.timer.running);
    assert_eq!(c.display(1_700_000_001_000_000), "1.00");
    assert_eq!(
        c.on_key(Key::Space, 1_700_000_012_345_678),
        Action::Stopped(12_345_678)
    );
    assert_eq!(c.state.solves.len(), 1);
    let s = &c.state.solves[0];
    assert_eq!(s.micros, 12_345_678);
    assert_eq!(s.scramble, "R U F");
    assert_eq!(s.timestamp, "1700000012");
    assert_eq!(c.state.time, "12.35");
    assert_eq!(c.display(0), "12.35");
    assert_eq!(c.state.fmt_solves, vec!["12.35".to_string()]);
    assert_eq!(c.state.scramble.split(' ').count(), 25);
    assert!(c.state.show_solve);
}

#[test]
fn escape_resets_the_display() {
    let mut c = session_of(&[10_000_000]);
    c.state.time = "10".to_string();
    c.set_prec(3);
    assert_eq!(c.state.time, "10");
    assert_eq!(c.on_key(Key::Escape, 1_000_000), Action::Cancelled);
    assert_eq!(c.state.time, "0.000");
    assert_eq!(c.state.solves.len(), 1);
}

#[test]
fn reset_time_zeroes_the_display() {
    let mut c = Cubism::default();
    c.state.time = "12.3".to_string();
    c.reset_time();
    assert_eq!(c.state.time, "0.00");
}

#[test]
fn deleting_the_newest_shows_the_next() {
    let mut c = session_of(&[9_876_000, 12_345_000]);
    c.delete(0);
    assert_eq!(c.state.solves.len(), 1);
    assert_eq!(c.state.time, "9.88");
    c.delete(0);
    assert!(c.state.solves.is_empty());
    assert_eq!(c.state.time, "0.00");
}

#[test]
fn deleting_an_older_solve_keeps_the_display() {
    let mut c = session_of(&[9_876_000, 12_345_000, 11_000_000]);
    c.state.time = "11".to_string();
    c.delete(2);
    assert_eq!(c.state.time, "11");
    assert_eq!(c.state.solves.len(), 2);
    assert_eq!(c.state.solves[1].micros, 12_345_000);
}

#[test]
fn statistics_fill_as_windows_fill() {
    let mut c = session_of(&[10_000_000, 11_110_000, 15_000_000, 9_870_000]);
    // The mean of 9.87, 15.00 and 11.11.
    assert_eq!(c.state.windows[0].current, Some(Average::Time(11_993_000)));
    assert_eq!(c.state.windows[1].current, None);
    add(&mut c, 12_340_000);
    c.refresh_averages();
    assert_eq!(c.state.windows[1].current, Some(Average::Time(11_150_000)));
    assert_eq!(c.state.windows[1].best, Some(Average::Time(11_150_000)));
    assert_eq!(c.state.windows[2].current, None);
}

#[test]
fn best_is_compared_by_value() {
    // Mo3 of 10.2s first, then of 9.5s: 9.5 must become the best although
    // "9.5" sorts after "10.2" as text.
    let mut c = session_of(&[10_200_000, 10_200_000, 10_200_000]);
    assert_eq!(c.state.windows[0].best, Some(Average::Time(10_200_000)));
    for _ in 0..3 {
        add(&mut c, 9_500_000);
    }
    c.refresh_averages();
    assert_eq!(c.state.windows[0].best, Some(Average::Time(9_500_000)));
    for _ in 0..3 {
        add(&mut c, 20_000_000);
    }
    c.refresh_averages();
    assert_eq!(c.state.windows[0].current, Some(Average::Time(20_000_000)));
    assert_eq!(c.state.windows[0].best, Some(Average::Time(9_500_000)));
}

#[test]
fn a_dnf_average_never_replaces_a_time() {
    let mut c = session_of(&[10_000_000; 5]);
    c.apply_dnf(0);
    c.apply_dnf(1);
    assert_eq!(c.state.windows[1].current, Some(Average::Dnf));
    assert_eq!(c.state.windows[1].best, Some(Average::Time(10_000_000)));
    assert_eq!(c.state.windows[0].current, Some(Average::Time(10_000_000)));
    assert_eq!(c.state.fmt_solves[0], "DNF");
}

#[test]
fn penalties_recompute_statistics() {
    let mut c = session_of(&[10_000_000, 11_000_000, 12_000_000]);
    assert_eq!(c.state.windows[0].current, Some(Average::Time(11_000_000)));
    c.apply_plus2(1);
    assert_eq!(c.state.solves[1].micros, 13_000_000);
    assert_eq!(c.state.windows[0].current, Some(Average::Time(11_667_000)));
    assert_eq!(c.state.fmt_solves[1], "13");
    c.clear_penalty(1);
    assert_eq!(c.state.solves[1].micros, 11_000_000);
    assert_eq!(c.state.windows[0].current, Some(Average::Time(11_000_000)));
    assert_eq!(c.state.mean, Some(11_000_000));
}

#[test]
fn precision_changes_redraw() {
    let mut c = session_of(&[12_345_678]);
    c.set_solves_prec(3);
    assert_eq!(c.state.fmt_solves, vec!["12.346".to_string()]);
    c.set_prec(1);
    assert_eq!(c.state.time, "12.3");
    let mut d = session_of(&[10_000_000, 10_000_000, 10_333_333]);
    d.set_ao5_prec(1);
    assert_eq!(d.state.windows[0].current, Some(Average::Time(10_100_000)));
    d.set_ao5_prec(6);
    assert_eq!(d.state.mean, Some(10_111_111));
}

#[test]
fn plottable_is_oldest_first() {
    let c = session_of(&[1, 2, 3]);
    assert_eq!(c.calculate_plottable(), vec![1, 2, 3]);
}

#[test]
fn import_prepends_in_order() {
    let mut c = session_of(&[5_000_000]);
    let batch = vec![
        ImportedSolve {
            segments: vec![1_000_000, 500_000],
            scramble: "U".to_string(),
            comment: "first".to_string(),
        },
        ImportedSolve {
            segments: vec![2_000_000],
            scramble: "F".to_string(),
            comment: "second".to_string(),
        },
    ];
    assert!(c.import_solves(batch, 1_700_000_000_000_000));
    assert_eq!(c.state.solves.len(), 3);
    assert_eq!(c.state.solves[0].micros, 2_000_000);
    assert_eq!(c.state.solves[0].comment, "second");
    assert_eq!(c.state.solves[1].micros, 1_500_000);
    assert_eq!(c.state.solves[1].scramble, "U");
    assert_eq!(c.state.solves[1].timestamp, "1700000000");
    assert_eq!(c.state.solves[2].micros, 5_000_000);
    assert_eq!(c.state.windows[0].current, Some(Average::Time(2_833_000)));
}

#[test]
fn import_with_an_oversized_time_changes_nothing() {
    let mut c = session_of(&[5_000_000]);
    let batch = vec![ImportedSolve {
        segments: vec![u64::MAX, 1],
        scramble: "U".to_string(),
        comment: String::new(),
    }];
    assert!(!c.import_solves(batch, 0));
    assert_eq!(c.state.solves.len(), 1);
    assert_eq!(segment_total(&vec![u64::MAX, 1]), None);
    assert_eq!(segment_total(&vec![3, 4]), Some(7));
}

#[test]
fn solves_are_listed_rounded() {
    let mut r = SolveStats::new(9_994_999, String::new(), String::new(), Cubes::ThreeByThree);
    assert_eq!(solve_string(&r, 2), "9.99");
    assert_eq!(solve_string(&r, 0), "10");
    r.dnf = true;
    assert_eq!(solve_string(&r, 2), "DNF");
}

#[test]
fn make_scramble_follows_the_cube_type() {
    let mut c = Cubism::default();
    c.state.cube_type = Cubes::TwoByTwo;
    assert_eq!(c.make_scramble().split(' ').count(), 12);
}

#[test]
fn wasm_is_recognised_by_name() {
    assert!(cubism::session::is_wasm("wasm32"));
    assert!(!cubism::session::is_wasm("x86_64"));
    assert!(!cubism::session::is_wasm("wasm64"));
    assert!(!cubism::session::is_wasm(""));
}

#[test]
fn timestamps_are_whole_seconds() {
    assert_eq!(cubism::session::timestamp(1_700_000_000_999_999), "1700000000");
    assert_eq!(cubism::session::timestamp(0), "0");
}

#[test]
fn running_display_is_padded() {
    let mut c = Cubism::default();
    c.on_key(Key::Space, 10_000_000);
    assert_eq!(c.display(10_000_000), "0.00");
    assert_eq!(c.display(11_204_999), "1.20");
    assert_eq!(c.display(11_205_000), "1.21");
    c.state.prec = 0;
    assert_eq!(c.display(11_600_000), "2");
    c.state.prec = 3;
    assert_eq!(c.display(9_000_000), "0.000");
}

#[test]
fn mean_of_three_is_not_trimmed() {
    let c = session_of(&[6_000_000, 2_000_000, 1_000_000]);
    assert_eq!(c.state.windows[0].current, Some(Average::Time(3_000_000)));
    assert_eq!(c.state.windows[0].best, Some(Average::Time(3_000_000)));
    assert_eq!(
        cubism::session::window_average(&c.state.solves, 3, 2),
        Some(Average::Time(3_000_000))
    );
}

#[test]
fn refreshing_twice_changes_nothing() {
    let mut c = session_of(&[12_000_000, 9_000_000, 15_000_000, 11_000_000, 10_000_000]);
    let windows = c.state.windows.clone();
    let mean = c.state.mean;
    c.refresh_averages();
    assert_eq!(c.state.windows, windows);
    assert_eq!(c.state.mean, mean);
}

#[test]
fn deleting_the_newest_closes_the_last_solve() {
    let mut c = Cubism::default();
    c.on_key(Key::Space, 1_000_000);
    c.on_key(Key::Space, 3_000_000);
    c.on_key(Key::Space, 4_000_000);
    c.on_key(Key::Space, 9_000_000);
    assert!(c.state.show_solve);
    c.delete(0);
    assert!(!c.state.show_solve);
    assert_eq!(c.state.time, "2");
}
