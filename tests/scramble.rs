use cubism::record::Cubes;
use cubism::scramble::{admissible_moves, face, Scrambler};

fn face_of(m: &str) -> char {
    face(m).unwrap()
}

#[test]
fn faces_of_moves() {
    assert_eq!(face("R2"), Some('R'));
    assert_eq!(face("2Lw"), Some('L'));
    assert_eq!(face("Dw'"), Some('D'));
    assert_eq!(face("X2"), None);
    assert_eq!(face(""), None);
}

#[test]
fn three_by_three_scramble_has_25_moves() {
    let s = Scrambler::from(Cubes::ThreeByThree).scramble();
    let moves: Vec<&str> = s.split(' ').collect();
    assert_eq!(moves.len(), 25);
    let options = Scrambler::from(Cubes::ThreeByThree).options();
    for m in &moves {
        assert!(options[1..].iter().any(|o| o == m));
    }
    for pair in moves.windows(2) {
        assert_ne!(face_of(pair[0]), face_of(pair[1]));
    }
}

#[test]
fn big_cube_scrambles_use_wide_moves_too() {
    let s = Scrambler::from(Cubes::FiveByFive).scramble();
    assert_eq!(s.split(' ').count(), 45);
    assert_eq!(Scrambler::from(Cubes::FourByFour).options().len(), 30);
    assert_eq!(Scrambler::from(Cubes::TwoByTwo).scramble().split(' ').count(), 12);
    assert_eq!(Scrambler::default().cube, Cubes::ThreeByThree);
}

#[test]
fn one_by_one_has_no_admissible_move() {
    let scrambler = Scrambler::from(Cubes::OneByOne);
    assert!(admissible_moves(&scrambler.options(), None).is_empty());
    assert_eq!(scrambler.scramble(), "");
}

#[test]
fn admissible_moves_skip_the_first_entry_and_the_last_face() {
    let options = Scrambler::from(Cubes::ThreeByThree).options();
    let after_r = admissible_moves(&options, Some('R'));
    assert_eq!(after_r, vec![4, 5, 6, 7, 8, 9, 10, 11, 12, 13, 14, 15]);
    let first = admissible_moves(&options, None);
    assert_eq!(first, (1..16).collect::<Vec<usize>>());
}
