use cubism::record::{Cubes, SolveStats};

fn record(micros: u64) -> SolveStats {
    SolveStats::new(micros, "R U R'".to_string(), "1700000000".to_string(), Cubes::TwoByTwo)
}

#[test]
fn plus2_adds_two_seconds() {
    let mut r = record(10_500_000);
    r.apply_plus2();
    assert_eq!(r.micros, 12_500_000);
    assert!(r.plus2);
    assert!(!r.dnf);
    r.apply_plus2();
    assert_eq!(r.micros, 12_500_000);
}

#[test]
fn plus2_then_clear_round_trips() {
    let mut r = record(10_500_000);
    r.apply_plus2();
    r.clear_penalty();
    assert_eq!(r.micros, 10_500_000);
    assert!(!r.plus2);
    assert!(!r.dnf);
}

#[test]
fn dnf_then_clear_keeps_the_time() {
    let mut r = record(10_500_000);
    r.apply_dnf();
    assert_eq!(r.micros, 10_500_000);
    assert!(r.dnf);
    r.clear_penalty();
    assert_eq!(r.micros, 10_500_000);
    assert!(!r.plus2);
    assert!(!r.dnf);
}

#[test]
fn dnf_takes_back_a_plus2() {
    let mut r = record(10_500_000);
    r.apply_plus2();
    r.apply_dnf();
    assert_eq!(r.micros, 10_500_000);
    assert!(r.dnf);
    assert!(!r.plus2);
    r.apply_plus2();
    assert_eq!(r.micros, 12_500_000);
    assert!(!r.dnf);
}

#[test]
fn new_records_have_no_penalty() {
    let r = record(1);
    assert_eq!(r.comment, "");
    assert_eq!(r.scramble, "R U R'");
    assert_eq!(r.cube_type, Cubes::TwoByTwo);
    assert!(!r.plus2 && !r.dnf);
    let d = SolveStats::default();
    assert_eq!(d.micros, 0);
    assert_eq!(d.cube_type, Cubes::ThreeByThree);
}

#[test]
fn cube_names() {
    assert_eq!(Cubes::ThreeByThree.name(), "3x3");
    assert_eq!(Cubes::OneByOne.name(), "1x1");
    assert_eq!(Cubes::FiveByFive.name(), "5x5");
}
