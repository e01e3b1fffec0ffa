//! Random scrambles: sequences of moves in which no two neighbours turn the
//! same face.

use crate::record::Cubes;
use rand::rngs::ThreadRng;
use rand::Rng;
use vstd::prelude::*;
use vstd::string::{StrSliceExecFns, StringExecFns};

verus! {

/// rand's thread-local generator, carried through as an opaque value.
#[verifier::external_type_specification]
#[verifier::external_body]
pub struct ExThreadRng(ThreadRng);

/// Relies on `rand::thread_rng`: a handle to the thread-local generator.
pub assume_specification[ rand::thread_rng ]() -> ThreadRng;

/// Relies on `rand::Rng::gen_range`: a value drawn from `0..bound`, which
/// panics on an empty range.
#[verifier::external_body]
fn draw_below(rng: &mut ThreadRng, bound: usize) -> (r: usize)
    requires
        bound > 0,
    ensures
        r < bound,
{
    rng.gen_range(0..bound)
}

/// The number of moves in a scramble for each puzzle.
pub open spec fn move_count(c: Cubes) -> nat {
    match c {
        Cubes::OneByOne => 8,
        Cubes::TwoByTwo => 12,
        Cubes::ThreeByThree => 25,
        Cubes::FourByFour => 40,
        Cubes::FiveByFive => 45,
    }
}

/// The face turns of the larger puzzles.
pub open spec fn face_turns() -> Seq<Seq<char>> {
    seq![
        "R"@, "R2"@, "R'"@, "R"@, "U"@, "U'"@, "U2"@, "F"@, "F'"@, "F2"@, "D"@, "D'"@, "D2"@,
        "L"@, "L2"@, "L'"@,
    ]
}

/// The wide turns added for 4x4 and 5x5.
pub open spec fn wide_turns() -> Seq<Seq<char>> {
    seq![
        "Rw"@, "Rw2"@, "Rw"@, "Rw2"@, "Rw'"@, "Lw"@, "2Lw"@, "Lw'"@, "Fw"@, "Fw2"@, "Fw'"@,
        "Dw"@, "Dw2"@, "D2"@,
    ]
}

/// The whole-puzzle rotations offered for the 1x1.
pub open spec fn rotations() -> Seq<Seq<char>> {
    seq!["X"@, "X'"@, "X2"@, "Y"@, "Y'"@, "Y2"@, "Z"@, "Z'"@, "Z2"@]
}

/// The moves a scramble for `c` is drawn from. The draw never takes the
/// first entry.
pub open spec fn move_options(c: Cubes) -> Seq<Seq<char>> {
    match c {
        Cubes::OneByOne => rotations(),
        Cubes::FourByFour | Cubes::FiveByFive => face_turns() + wide_turns(),
        _ => face_turns(),
    }
}

/// Whether `c` names a face that a scramble may turn.
pub open spec fn is_face(c: char) -> bool {
    c == 'R' || c == 'U' || c == 'F' || c == 'D' || c == 'L'
}

/// The face a move turns: its first character after a leading digit, if that
/// is one of the faces a scramble may turn.
pub open spec fn face_of(m: Seq<char>) -> Option<char> {
    let t = if m.len() > 0 && '0' <= m[0] && m[0] <= '9' {
        m.drop_first()
    } else {
        m
    };
    if t.len() > 0 && is_face(t[0]) {
        Some(t[0])
    } else {
        None
    }
}

/// Whether entry `i` of `opts` may follow a move on face `prev`: it is not the
/// first entry, and it turns a face other than `prev`.
pub open spec fn admissible(opts: Seq<Seq<char>>, prev: Option<char>, i: int) -> bool {
    &&& 1 <= i < opts.len()
    &&& face_of(opts[i]) is Some
    &&& face_of(opts[i]) != prev
}

/// The admissible entries below `n`, in increasing order.
pub open spec fn admissible_below(opts: Seq<Seq<char>>, prev: Option<char>, n: nat) -> Seq<
    usize,
>
    decreases n,
{
    if n == 0 {
        Seq::empty()
    } else if admissible(opts, prev, n - 1) {
        admissible_below(opts, prev, (n - 1) as nat).push((n - 1) as usize)
    } else {
        admissible_below(opts, prev, (n - 1) as nat)
    }
}

/// The face turned by the move before position `j` of `picks`; none at the
/// start.
pub open spec fn face_before(opts: Seq<Seq<char>>, picks: Seq<usize>, j: int) -> Option<char> {
    if j == 0 {
        None
    } else {
        face_of(opts[picks[j - 1] as int])
    }
}

/// Whether every pick is admissible after the one before it.
pub open spec fn valid_picks(opts: Seq<Seq<char>>, picks: Seq<usize>) -> bool {
    forall|j: int|
        0 <= j < picks.len() ==> admissible(opts, face_before(opts, picks, j), picks[j] as int)
}

/// The picked moves separated by single spaces.
pub open spec fn joined(opts: Seq<Seq<char>>, picks: Seq<usize>) -> Seq<char>
    decreases picks.len(),
{
    if picks.len() == 0 {
        Seq::empty()
    } else if picks.len() == 1 {
        opts[picks[0] as int]
    } else {
        joined(opts, picks.drop_last()).push(' ') + opts[picks.last() as int]
    }
}

proof fn lemma_admissible_below(opts: Seq<Seq<char>>, prev: Option<char>, n: nat)
    requires
        n <= usize::MAX,
    ensures
        forall|k: int|
            0 <= k < admissible_below(opts, prev, n).len() ==> admissible(
                opts,
                prev,
                admissible_below(opts, prev, n)[k] as int,
            ) && admissible_below(opts, prev, n)[k] < n,
        forall|i: int|
            0 <= i < n && admissible(opts, prev, i) ==> admissible_below(opts, prev, n).contains(
                i as usize,
            ),
    decreases n,
{
    if n > 0 {
        lemma_admissible_below(opts, prev, (n - 1) as nat);
        let r = admissible_below(opts, prev, (n - 1) as nat);
        if admissible(opts, prev, n - 1) {
            let r2 = r.push((n - 1) as usize);
            assert forall|k: int| 0 <= k < r2.len() implies admissible(opts, prev, r2[k] as int)
                && r2[k] < n by {
                if k < r.len() {
                    assert(r2[k] == r[k]);
                }
            }
            assert forall|i: int| 0 <= i < n && admissible(opts, prev, i) implies r2.contains(
                i as usize,
            ) by {
                if i < n - 1 {
                    let k = choose|k: int| 0 <= k < r.len() && r[k] == i as usize;
                    assert(r2[k] == i as usize);
                } else {
                    assert(r2[r.len() as int] == i as usize);
                }
            }
        }
    }
}

/// Whether `text` is a scramble drawn from `opts`: at most `count` moves, each
/// admissible after the one before it, joined by spaces, and fewer than
/// `count` only where no entry could follow the last move.
pub open spec fn is_scramble(opts: Seq<Seq<char>>, count: nat, picks: Seq<usize>, text: Seq<char>) -> bool {
    &&& picks.len() <= count
    &&& valid_picks(opts, picks)
    &&& text == joined(opts, picks)
    &&& picks.len() < count ==> admissible_below(
        opts,
        face_before(opts, picks, picks.len() as int),
        opts.len(),
    ).len() == 0
}

/// On every puzzle but the 1x1 some entry may follow any move: `R2` after
/// a turn of `U`, and `U` after anything else.
proof fn lemma_always_admissible(c: Cubes, prev: Option<char>)
    requires
        c != Cubes::OneByOne,
    ensures
        admissible(move_options(c), prev, 1) || admissible(move_options(c), prev, 4),
{
    reveal_strlit("R2");
    reveal_strlit("U");
    let opts = move_options(c);
    assert(opts[1] == "R2"@);
    assert(opts[4] == "U"@);
    assert(face_of("R2"@) == Some('R'));
    assert(face_of("U"@) == Some('U'));
}

fn push_option(v: &mut Vec<String>, m: &str)
    ensures
        final(v)@.len() == old(v)@.len() + 1,
        forall|i: int| 0 <= i < old(v)@.len() ==> final(v)@[i] == old(v)@[i],
        final(v)@[old(v)@.len() as int]@ == m@,
{
    v.push(String::from_str(m));
}

/// The face a move turns, as `face_of` describes.
pub fn face(m: &str) -> (r: Option<char>)
    ensures
        r == face_of(m@),
{
    let n = m.unicode_len();
    if n == 0 {
        return None;
    }
    let mut c = m.get_char(0);
    if '0' <= c && c <= '9' {
        if n < 2 {
            assert(m@.drop_first().len() == 0);
            return None;
        }
        c = m.get_char(1);
        assert(m@.drop_first()[0] == m@[1]);
    }
    if c == 'R' || c == 'U' || c == 'F' || c == 'D' || c == 'L' {
        Some(c)
    } else {
        None
    }
}

/// The entries of `opts` that may follow a move on face `prev`, in
/// increasing order.
pub fn admissible_moves(opts: &Vec<String>, prev: Option<char>) -> (r: Vec<usize>)
    ensures
        r@ == admissible_below(opts@.map_values(|s: String| s@), prev, opts@.len()),
{
    let ghost views = opts@.map_values(|s: String| s@);
    let mut r: Vec<usize> = Vec::new();
    let mut i: usize = 0;
    while i < opts.len()
        invariant
            i <= opts@.len(),
            views == opts@.map_values(|s: String| s@),
            r@ == admissible_below(views, prev, i as nat),
        decreases opts@.len() - i,
    {
        let f = face(opts[i].as_str());
        assert(views[i as int] == opts@[i as int]@);
        if i >= 1 && f.is_some() && f != prev {
            r.push(i);
        }
        i = i + 1;
    }
    r
}

/// Draws scrambles for one puzzle.
pub struct Scrambler {
    pub cube: Cubes,
}

impl Default for Scrambler {
    fn default() -> (r: Self)
        ensures
            r.cube == Cubes::ThreeByThree,
    {
        Scrambler { cube: Cubes::ThreeByThree }
    }
}

impl From<Cubes> for Scrambler {
    fn from(value: Cubes) -> (r: Self)
        ensures
            r.cube == value,
    {
        Scrambler { cube: value }
    }
}

impl vstd::std_specs::convert::FromSpecImpl<Cubes> for Scrambler {
    open spec fn obeys_from_spec() -> bool {
        true
    }

    open spec fn from_spec(v: Cubes) -> Self {
        Scrambler { cube: v }
    }
}

impl Scrambler {
    /// The moves a scramble is drawn from, as `move_options` lists them.
    pub fn options(&self) -> (r: Vec<String>)
        ensures
            r@.map_values(|s: String| s@) == move_options(self.cube),
    {
        let mut v: Vec<String> = Vec::new();
        if self.cube == Cubes::OneByOne {
            push_option(&mut v, "X");
            push_option(&mut v, "X'");
            push_option(&mut v, "X2");
            push_option(&mut v, "Y");
            push_option(&mut v, "Y'");
            push_option(&mut v, "Y2");
            push_option(&mut v, "Z");
            push_option(&mut v, "Z'");
            push_option(&mut v, "Z2");
            assert(v@.map_values(|s: String| s@) =~= move_options(self.cube));
            return v;
        }
        push_option(&mut v, "R");
        push_option(&mut v, "R2");
        push_option(&mut v, "R'");
        push_option(&mut v, "R");
        push_option(&mut v, "U");
        push_option(&mut v, "U'");
        push_option(&mut v, "U2");
        push_option(&mut v, "F");
        push_option(&mut v, "F'");
        push_option(&mut v, "F2");
        push_option(&mut v, "D");
        push_option(&mut v, "D'");
        push_option(&mut v, "D2");
        push_option(&mut v, "L");
        push_option(&mut v, "L2");
        push_option(&mut v, "L'");
        if self.cube == Cubes::FourByFour || self.cube == Cubes::FiveByFive {
            push_option(&mut v, "Rw");
            push_option(&mut v, "Rw2");
            push_option(&mut v, "Rw");
            push_option(&mut v, "Rw2");
            push_option(&mut v, "Rw'");
            push_option(&mut v, "Lw");
            push_option(&mut v, "2Lw");
            push_option(&mut v, "Lw'");
            push_option(&mut v, "Fw");
            push_option(&mut v, "Fw2");
            push_option(&mut v, "Fw'");
            push_option(&mut v, "Dw");
            push_option(&mut v, "Dw2");
            push_option(&mut v, "D2");
        }
        assert(v@.map_values(|s: String| s@) =~= move_options(self.cube));
        v
    }

    /// The number of moves in a scramble for this puzzle.
    pub fn length(&self) -> (r: usize)
        ensures
            r == move_count(self.cube),
    {
        match self.cube {
            Cubes::OneByOne => 8,
            Cubes::TwoByTwo => 12,
            Cubes::ThreeByThree => 25,
            Cubes::FourByFour => 40,
            Cubes::FiveByFive => 45,
        }
    }

    /// A random scramble: each move is drawn evenly from the entries that may
    /// follow the one before it. Only the 1x1, whose rotations turn no face,
    /// gets fewer moves than its count: none.
    pub fn scramble(&self) -> (r: String)
        ensures
            exists|picks: Seq<usize>|
                is_scramble(move_options(self.cube), move_count(self.cube), picks, r@) && (
                self.cube != Cubes::OneByOne ==> picks.len() == move_count(self.cube)),
    {
        let opts = self.options();
        let count = self.length();
        let ghost views = opts@.map_values(|s: String| s@);
        let mut rng = rand::thread_rng();
        let mut out = String::new();
        let mut prev: Option<char> = None;
        let mut n: usize = 0;
        let ghost mut picks: Seq<usize> = Seq::empty();
        while n < count
            invariant
                n <= count,
                count == move_count(self.cube),
                views == opts@.map_values(|s: String| s@),
                views == move_options(self.cube),
                picks.len() == n,
                valid_picks(views, picks),
                out@ == joined(views, picks),
                prev == face_before(views, picks, n as int),
            ensures
                is_scramble(views, count as nat, picks, out@),
                self.cube != Cubes::OneByOne ==> picks.len() == count,
            decreases count - n,
        {
            let adm = admissible_moves(&opts, prev);
            proof {
                lemma_admissible_below(views, prev, opts@.len() as nat);
            }
            if adm.len() == 0 {
                proof {
                    if self.cube != Cubes::OneByOne {
                        lemma_always_admissible(self.cube, prev);
                        if admissible(views, prev, 1) {
                            assert(adm@.contains(1usize));
                        } else {
                            assert(adm@.contains(4usize));
                        }
                    }
                }
                break;
            }
            let d = draw_below(&mut rng, adm.len());
            let k = adm[d];
            assert(admissible(views, prev, k as int));
            assert(views[k as int] == opts@[k as int]@);
            if n > 0 {
                out.push(' ');
            }
            out.append(opts[k].as_str());
            prev = face(opts[k].as_str());
            let ghost old_picks = picks;
            proof {
                picks = picks.push(k);
                assert(picks.drop_last() =~= old_picks);
                assert forall|j: int| 0 <= j < picks.len() implies admissible(
                    views,
                    face_before(views, picks, j),
                    picks[j] as int,
                ) by {
                    if j < n {
                        assert(face_before(views, picks, j) == face_before(views, old_picks, j));
                    }
                }
            }
            n = n + 1;
        }
        proof {
            assert(is_scramble(move_options(self.cube), move_count(self.cube), picks, out@));
        }
        out
    }
}

} // verus!
