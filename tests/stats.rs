use cubism::decimal::{padded_seconds_string, round, seconds_string};
use cubism::record::{Cubes, SolveStats};
use cubism::stats::{average, average_string, mean, rolling_average, rolling_mean, Average};

fn solve(micros: u64, dnf: bool) -> SolveStats {
    let mut s = SolveStats::new(micros, "R U".to_string(), "0".to_string(), Cubes::ThreeByThree);
    s.dnf = dnf;
    s
}

fn five(dnf_at: Option<usize>) -> Vec<SolveStats> {
    let times = [12_340_000u64, 9_870_000, 15_000_000, 11_110_000, 10_000_000];
    times
        .iter()
        .enumerate()
        .map(|(i, t)| solve(*t, dnf_at == Some(i)))
        .collect()
}

#[test]
fn ao5_excludes_max_and_min() {
    let solves = five(None);
    assert_eq!(average(&solves, 4, 2), Some("11.15".to_string()));
    assert_eq!(rolling_average(&solves, 5, 2), Some(Average::Time(11_150_000)));
}

#[test]
fn ao5_with_one_dnf_counts_it_as_worst() {
    let solves = five(Some(2));
    assert_eq!(average(&solves, 4, 2), Some("11.15".to_string()));
    assert_eq!(rolling_average(&solves, 5, 4), Some(Average::Time(11_150_000)));
}

#[test]
fn one_dnf_replaces_the_largest_time() {
    // 10, 20, DNF, 30, 40: the DNF is the worst, 10 is the best; (20+30+40)/3.
    let mut solves = vec![
        solve(10_000_000, false),
        solve(20_000_000, false),
        solve(5_000_000, true),
        solve(30_000_000, false),
        solve(40_000_000, false),
    ];
    assert_eq!(rolling_average(&solves, 5, 2), Some(Average::Time(30_000_000)));
    solves[2].dnf = false;
    // 5 is now the best and 40 the worst: (10+20+30)/3.
    assert_eq!(rolling_average(&solves, 5, 2), Some(Average::Time(20_000_000)));
}

#[test]
fn two_dnfs_make_a_dnf_average() {
    let mut solves = five(Some(0));
    solves[4].dnf = true;
    assert_eq!(average(&solves, 4, 2), Some("DNF".to_string()));
    assert_eq!(rolling_average(&solves, 5, 2), Some(Average::Dnf));
}

#[test]
fn equal_extremes_drop_one_reading_each() {
    let solves = vec![
        solve(10_000_000, false),
        solve(10_000_000, false),
        solve(10_000_000, false),
        solve(20_000_000, false),
        solve(20_000_000, false),
    ];
    // One 10 and one 20 are dropped: (10+10+20)/3 = 13.333...
    assert_eq!(average(&solves, 4, 3), Some("13.333".to_string()));
}

#[test]
fn average_rounds_half_up() {
    let solves = vec![
        solve(1_000_000, false),
        solve(1_005_000, false),
        solve(9_000_000, false),
    ];
    assert_eq!(average(&solves, 2, 2), Some("1.01".to_string()));
    assert_eq!(average(&solves, 2, 0), Some("1".to_string()));
}

#[test]
fn too_few_solves_give_no_average() {
    let solves = five(None);
    assert_eq!(average(&solves, 11, 2), None);
    assert_eq!(rolling_average(&solves, 12, 2), None);
    assert_eq!(mean(&solves, 5, 2), None);
}

#[test]
fn only_the_newest_window_counts() {
    let mut solves = five(None);
    solves.push(solve(100_000_000, false));
    assert_eq!(average(&solves, 4, 2), Some("11.15".to_string()));
}

#[test]
fn mean_includes_every_solve() {
    let solves = five(None);
    // (12.34 + 9.87 + 15.00) / 3 = 12.403333...
    assert_eq!(mean(&solves, 2, 3), Some("12.403".to_string()));
    assert_eq!(rolling_mean(&solves, 5, 2), Some(11_660_000));
    let with_dnf = five(Some(1));
    assert_eq!(mean(&with_dnf, 2, 3), Some("12.403".to_string()));
}

#[test]
fn round_to_places() {
    assert_eq!(round(12_345_678, 2), 12_350_000);
    assert_eq!(round(12_344_999, 2), 12_340_000);
    assert_eq!(round(12_345_678, 0), 12_000_000);
    assert_eq!(round(12_500_000, 0), 13_000_000);
    assert_eq!(round(12_345_678, 6), 12_345_678);
}

#[test]
fn round_is_idempotent() {
    for x in [0u64, 1, 499_999, 500_000, 12_345_678, 98_765_432_109] {
        for d in 0..=6usize {
            assert_eq!(round(round(x, d) as u64, d), round(x, d));
        }
    }
}

#[test]
fn seconds_render_without_trailing_zeros() {
    assert_eq!(seconds_string(11_150_000), "11.15");
    assert_eq!(seconds_string(12_000_000), "12");
    assert_eq!(seconds_string(12_300_000), "12.3");
    assert_eq!(seconds_string(0), "0");
    assert_eq!(seconds_string(1_000_001), "1.000001");
    assert_eq!(seconds_string(123_456_789_000), "123456.789");
}

#[test]
fn padded_seconds_keep_every_place() {
    assert_eq!(padded_seconds_string(0, 2), "0.00");
    assert_eq!(padded_seconds_string(12_300_000, 3), "12.300");
    assert_eq!(padded_seconds_string(12_340_000, 0), "12");
    assert_eq!(padded_seconds_string(5_070_000, 2), "5.07");
}

#[test]
fn averages_render() {
    assert_eq!(average_string(Average::Dnf), "DNF");
    assert_eq!(average_string(Average::Time(9_500_000)), "9.5");
}
