//! Solutions for 3x3 scrambles, found by cubesim's Thistlethwaite solver and
//! written back in move notation.

use crate::decimal::{digits, push_digits};
use cubesim::{Cube, FaceletCube, Move, MoveVariant};
use vstd::prelude::*;
use vstd::string::{StrSliceExecFns, StringExecFns};

verus! {

/// cubesim's move, carried through as an opaque value.
#[verifier::external_type_specification]
#[verifier::external_body]
pub struct ExMove(Move);

/// cubesim's cube state, carried through as an opaque value.
#[verifier::external_type_specification]
#[verifier::external_body]
pub struct ExFaceletCube(FaceletCube);

/// A layer, or the whole puzzle, that a move turns.
#[derive(PartialEq, Eq, Structural, Clone, Copy, Debug)]
pub enum Layer {
    U,
    L,
    F,
    R,
    B,
    D,
    X,
    Y,
    Z,
}

/// How far a move turns.
#[derive(PartialEq, Eq, Structural, Clone, Copy, Debug)]
pub enum Variant {
    /// A quarter turn clockwise.
    Standard,
    /// A half turn.
    Double,
    /// A quarter turn counter-clockwise.
    Inverse,
}

/// One move: a layer, whether it turns the outer `width` layers together,
/// and how far.
#[derive(PartialEq, Eq, Structural, Clone, Copy, Debug)]
pub struct CubeMove {
    pub layer: Layer,
    pub wide: bool,
    pub width: i32,
    pub variant: Variant,
}

/// The solution that cubesim's Thistlethwaite search finds for a scramble,
/// in the library's form; `None` where it finds none.
pub uninterp spec fn solution_of(scramble: Seq<char>) -> Option<Seq<CubeMove>>;

/// Relies on `cubesim::parse_scramble` (one move per token; it panics on a
/// token it cannot read, and `is_notation` admits only tokens that it reads),
/// `cubesim::FaceletCube::new` and `cubesim::Cube::apply_moves` (the solved
/// 3x3 with those moves applied), and `cubesim::solve`, whose search depends
/// on that cube alone. Its moves are converted one for one by `convert_move`.
#[verifier::external_body]
fn find_solution(scramble: String) -> (r: Option<Vec<CubeMove>>)
    requires
        is_notation(scramble@),
    ensures
        r is Some <==> solution_of(scramble@) is Some,
        r is Some ==> r->0@ == solution_of(scramble@)->0,
{
    let moves = cubesim::parse_scramble(scramble);
    let cube = FaceletCube::new(3).apply_moves(&moves);
    cubesim::solve(&cube).map(|found| found.iter().map(convert_move).collect())
}

/// Relies on `cubesim::Move`: the layer that a move turns, whether alone or
/// with the layers next to it.
#[verifier::external_body]
fn layer_of(m: &Move) -> (r: Layer) {
    match m {
        Move::U(_) | Move::Uw(..) => Layer::U,
        Move::L(_) | Move::Lw(..) => Layer::L,
        Move::F(_) | Move::Fw(..) => Layer::F,
        Move::R(_) | Move::Rw(..) => Layer::R,
        Move::B(_) | Move::Bw(..) => Layer::B,
        Move::D(_) | Move::Dw(..) => Layer::D,
        Move::X(_) => Layer::X,
        Move::Y(_) => Layer::Y,
        Move::Z(_) => Layer::Z,
    }
}

/// Relies on `cubesim::Move`: the number of layers of a wide turn, `None` for
/// any other move.
#[verifier::external_body]
fn wide_width(m: &Move) -> (r: Option<i32>) {
    match m {
        Move::Uw(n, _) | Move::Lw(n, _) | Move::Fw(n, _) => Some(*n),
        Move::Rw(n, _) | Move::Bw(n, _) | Move::Dw(n, _) => Some(*n),
        _ => None,
    }
}

/// Relies on `cubesim::Move::get_variant`: how far the move turns.
#[verifier::external_body]
fn variant_of(m: &Move) -> (r: Variant) {
    match m.get_variant() {
        MoveVariant::Standard => Variant::Standard,
        MoveVariant::Double => Variant::Double,
        MoveVariant::Inverse => Variant::Inverse,
    }
}

/// Where a scanner of move notation stands after some characters.
#[derive(PartialEq, Eq, Structural, Clone, Copy, Debug)]
pub enum Lex {
    /// Between tokens.
    Gap,
    /// After a face letter.
    Face,
    /// After a face letter and `w`.
    Wide,
    /// After a rotation letter.
    Rotation,
    /// After a `2` or `'` that ends a token.
    Suffix,
    /// After a character that no token may hold there.
    Bad,
}

pub open spec fn is_face_letter(c: char) -> bool {
    c == 'U' || c == 'R' || c == 'F' || c == 'L' || c == 'D' || c == 'B'
}

pub open spec fn is_rotation_letter(c: char) -> bool {
    c == 'x' || c == 'y' || c == 'z'
}

pub open spec fn is_suffix(c: char) -> bool {
    c == '2' || c == '\''
}

/// One step of the scanner. Tokens are separated by spaces; each is a face
/// letter, optionally followed by `w`, or a rotation letter, and then
/// optionally `2` or `'`.
pub open spec fn lex_step(st: Lex, c: char) -> Lex {
    match st {
        Lex::Bad => Lex::Bad,
        Lex::Gap => if c == ' ' {
            Lex::Gap
        } else if is_face_letter(c) {
            Lex::Face
        } else if is_rotation_letter(c) {
            Lex::Rotation
        } else {
            Lex::Bad
        },
        Lex::Face => if c == ' ' {
            Lex::Gap
        } else if c == 'w' {
            Lex::Wide
        } else if is_suffix(c) {
            Lex::Suffix
        } else {
            Lex::Bad
        },
        Lex::Wide | Lex::Rotation => if c == ' ' {
            Lex::Gap
        } else if is_suffix(c) {
            Lex::Suffix
        } else {
            Lex::Bad
        },
        Lex::Suffix => if c == ' ' {
            Lex::Gap
        } else {
            Lex::Bad
        },
    }
}

/// Where the scanner stands after all of `s`.
pub open spec fn lex(s: Seq<char>) -> Lex
    decreases s.len(),
{
    if s.len() == 0 {
        Lex::Gap
    } else {
        lex_step(lex(s.drop_last()), s.last())
    }
}

/// Whether `s` is a scramble in the move notation the solver takes.
pub open spec fn is_notation(s: Seq<char>) -> bool {
    lex(s) != Lex::Bad
}

fn lex_step_exec(st: Lex, c: char) -> (r: Lex)
    ensures
        r == lex_step(st, c),
{
    let face = c == 'U' || c == 'R' || c == 'F' || c == 'L' || c == 'D' || c == 'B';
    let rotation = c == 'x' || c == 'y' || c == 'z';
    let suffix = c == '2' || c == '\'';
    match st {
        Lex::Bad => Lex::Bad,
        Lex::Gap => if c == ' ' {
            Lex::Gap
        } else if face {
            Lex::Face
        } else if rotation {
            Lex::Rotation
        } else {
            Lex::Bad
        },
        Lex::Face => if c == ' ' {
            Lex::Gap
        } else if c == 'w' {
            Lex::Wide
        } else if suffix {
            Lex::Suffix
        } else {
            Lex::Bad
        },
        Lex::Wide | Lex::Rotation => if c == ' ' {
            Lex::Gap
        } else if suffix {
            Lex::Suffix
        } else {
            Lex::Bad
        },
        Lex::Suffix => if c == ' ' {
            Lex::Gap
        } else {
            Lex::Bad
        },
    }
}

/// Whether `s` is a scramble in the move notation the solver takes.
pub fn check_notation(s: &str) -> (r: bool)
    ensures
        r == is_notation(s@),
{
    let n = s.unicode_len();
    let mut st = Lex::Gap;
    let mut i: usize = 0;
    while i < n
        invariant
            i <= n == s@.len(),
            st == lex(s@.take(i as int)),
        decreases n - i,
    {
        let c = s.get_char(i);
        assert(s@.take(i + 1).drop_last() =~= s@.take(i as int));
        st = lex_step_exec(st, c);
        i = i + 1;
    }
    assert(s@.take(n as int) =~= s@);
    st != Lex::Bad
}

/// The letter of a layer.
pub open spec fn layer_text(l: Layer) -> Seq<char> {
    match l {
        Layer::U => "U"@,
        Layer::L => "L"@,
        Layer::F => "F"@,
        Layer::R => "R"@,
        Layer::B => "B"@,
        Layer::D => "D"@,
        Layer::X => "X"@,
        Layer::Y => "Y"@,
        Layer::Z => "Z"@,
    }
}

/// A move's text with its turn appended: nothing for a quarter turn, `2` for
/// a half turn, `'` for a counter-clockwise quarter turn.
pub open spec fn with_variant(base: Seq<char>, v: Variant) -> Seq<char> {
    match v {
        Variant::Standard => base,
        Variant::Double => base.push('2'),
        Variant::Inverse => base.push('\''),
    }
}

/// The decimal text of an integer, with a minus sign where it is negative.
pub open spec fn int_text(n: int) -> Seq<char> {
    if n < 0 {
        seq!['-'] + digits((-n) as nat)
    } else {
        digits(n as nat)
    }
}

/// A wide move's text before its turn: `Rw` for a width of one, else the
/// width first, as in `3Rw`.
pub open spec fn wide_text(name: Seq<char>, width: int) -> Seq<char> {
    if width == 1 {
        name
    } else {
        int_text(width) + name
    }
}

/// A move in notation.
pub open spec fn move_text(m: CubeMove) -> Seq<char> {
    if m.wide {
        with_variant(wide_text(layer_text(m.layer).push('w'), m.width as int), m.variant)
    } else {
        with_variant(layer_text(m.layer), m.variant)
    }
}

/// A solution in notation: each move followed by a space.
pub open spec fn solution_text(moves: Seq<CubeMove>) -> Seq<char>
    decreases moves.len(),
{
    if moves.len() == 0 {
        Seq::empty()
    } else {
        solution_text(moves.drop_last()) + move_text(moves.last()).push(' ')
    }
}

fn layer_string(l: Layer) -> (r: String)
    ensures
        r@ == layer_text(l),
{
    match l {
        Layer::U => String::from_str("U"),
        Layer::L => String::from_str("L"),
        Layer::F => String::from_str("F"),
        Layer::R => String::from_str("R"),
        Layer::B => String::from_str("B"),
        Layer::D => String::from_str("D"),
        Layer::X => String::from_str("X"),
        Layer::Y => String::from_str("Y"),
        Layer::Z => String::from_str("Z"),
    }
}

/// A move's text with its turn appended.
pub fn format_move(move_str: &str, variant: Variant) -> (r: String)
    ensures
        r@ == with_variant(move_str@, variant),
{
    let mut s = String::from_str(move_str);
    match variant {
        Variant::Standard => {},
        Variant::Double => s.push('2'),
        Variant::Inverse => s.push('\''),
    }
    s
}

/// A wide move's text with its width and turn.
pub fn format_move_with_val(move_str: &str, val: i32, variant: Variant) -> (r: String)
    ensures
        r@ == with_variant(wide_text(move_str@, val as int), variant),
{
    if val == 1 {
        format_move(move_str, variant)
    } else {
        let mut prefix = String::new();
        if val < 0 {
            prefix.push('-');
            push_digits(&mut prefix, (-(val as i64)) as u128);
        } else {
            push_digits(&mut prefix, val as u128);
        }
        prefix.append(move_str);
        assert(prefix@ =~= int_text(val as int) + move_str@);
        format_move(prefix.as_str(), variant)
    }
}

/// A move in notation.
pub fn move_string(m: CubeMove) -> (r: String)
    ensures
        r@ == move_text(m),
{
    let mut name = layer_string(m.layer);
    if m.wide {
        name.push('w');
        format_move_with_val(name.as_str(), m.width, m.variant)
    } else {
        format_move(name.as_str(), m.variant)
    }
}

/// A solution in notation: each move followed by a space.
pub fn solution_string(moves: &Vec<CubeMove>) -> (r: String)
    ensures
        r@ == solution_text(moves@),
{
    let mut s = String::new();
    let mut i: usize = 0;
    while i < moves.len()
        invariant
            i <= moves@.len(),
            s@ == solution_text(moves@.take(i as int)),
        decreases moves@.len() - i,
    {
        let text = move_string(moves[i]);
        s.append(text.as_str());
        s.push(' ');
        assert(moves@.take(i + 1).drop_last() =~= moves@.take(i as int));
        i = i + 1;
        assert(s@ =~= solution_text(moves@.take(i as int)));
    }
    assert(moves@.take(i as int) =~= moves@);
    s
}

/// The library's form of one of cubesim's moves.
fn convert_move(m: &Move) -> CubeMove {
    let layer = layer_of(m);
    let variant = variant_of(m);
    match wide_width(m) {
        None => CubeMove { layer, wide: false, width: 1, variant },
        Some(width) => CubeMove { layer, wide: true, width, variant },
    }
}

/// The text returned where no solution is found.
pub open spec fn bad_scramble() -> Seq<char> {
    "Bad Scramble"@
}

/// What a search result reads as: `Bad Scramble` where there is no
/// solution, else the solution in notation.
pub open spec fn answer_text(found: Option<Seq<CubeMove>>) -> Seq<char> {
    match found {
        None => bad_scramble(),
        Some(moves) => solution_text(moves),
    }
}

/// Renders a search result: `Bad Scramble` where there is no solution, else
/// each move followed by a space.
pub fn answer_string(found: Option<Vec<CubeMove>>) -> (r: String)
    ensures
        r@ == answer_text(
            match found {
                None => None,
                Some(v) => Some(v@),
            },
        ),
{
    match found {
        None => String::from_str("Bad Scramble"),
        Some(moves) => solution_string(&moves),
    }
}

/// A solution of a 3x3 scramble, each move followed by a space. A scramble
/// outside the notation the solver takes gives `Bad Scramble`, and so does
/// one for which the solver finds no solution.
pub fn solve(scramble: String) -> (r: String)
    ensures
        !is_notation(scramble@) ==> r@ == bad_scramble(),
        is_notation(scramble@) ==> r@ == answer_text(solution_of(scramble@)),
{
    if !check_notation(scramble.as_str()) {
        return String::from_str("Bad Scramble");
    }
    let found = find_solution(scramble);
    answer_string(found)
}

} // verus!
