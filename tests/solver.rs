use cubesim::Cube;
use cubism::solver::{
    answer_string, check_notation, format_move, format_move_with_val, move_string, solution_string, solve,
    CubeMove, Layer, Variant,
};

#[test]
fn notation_is_checked() {
    assert!(check_notation("R U2 F' Rw x2 y' B"));
    assert!(check_notation("  R   U  "));
    assert!(check_notation(""));
    assert!(!check_notation("X"));
    assert!(!check_notation("R2'"));
    assert!(!check_notation("3Rw"));
    assert!(!check_notation("R\tU"));
    assert!(!check_notation("RU"));
}

#[test]
fn moves_render_in_notation() {
    let m = CubeMove { layer: Layer::R, wide: false, width: 1, variant: Variant::Inverse };
    assert_eq!(move_string(m), "R'");
    let w = CubeMove { layer: Layer::F, wide: true, width: 3, variant: Variant::Double };
    assert_eq!(move_string(w), "3Fw2");
    let w1 = CubeMove { layer: Layer::U, wide: true, width: 1, variant: Variant::Standard };
    assert_eq!(move_string(w1), "Uw");
    assert_eq!(format_move("D", Variant::Double), "D2");
    assert_eq!(format_move_with_val("Lw", 2, Variant::Inverse), "2Lw'");
    assert_eq!(format_move_with_val("Lw", -2, Variant::Standard), "-2Lw");
    assert_eq!(solution_string(&vec![m, w]), "R' 3Fw2 ");
    assert_eq!(solution_string(&vec![]), "");
}

#[test]
fn bad_notation_is_a_bad_scramble() {
    assert_eq!(solve("Q R".to_string()), "Bad Scramble");
}

#[test]
fn solutions_undo_the_scramble() {
    let scramble = "R U R' U'".to_string();
    let solution = solve(scramble.clone());
    assert_ne!(solution, "Bad Scramble");
    assert!(check_notation(&solution));
    let cube = cubesim::FaceletCube::new(3)
        .apply_moves(&cubesim::parse_scramble(scramble))
        .apply_moves(&cubesim::parse_scramble(solution));
    assert!(cube.is_solved());
}

#[test]
fn answers_render_exactly() {
    assert_eq!(answer_string(None), "Bad Scramble");
    let m = CubeMove { layer: Layer::D, wide: false, width: 1, variant: Variant::Double };
    assert_eq!(answer_string(Some(vec![m, m])), "D2 D2 ");
    assert_eq!(answer_string(Some(vec![])), "");
}

#[test]
fn a_solved_cube_needs_no_moves() {
    assert_eq!(solve(String::new()), "");
}
