//! Hand-crafted evaluation: material, piece-square tables, bishop pair, rooks on
//! open files, passed pawns and the mobility of minor pieces.

use crate::attacks::{attack_set, attacks_of};
use crate::bitboard::{
    empty_set, group_bits, lowest_facts, member, pop_lsb, popcount, rest_facts, squares, FILE_A,
};
use crate::board::{agree, codes_bounded, Position};
use crate::num::tdiv;
use crate::pst::{end_king_bonus, end_king_bonus_of, middle_bonus, middle_bonus_of};
use crate::types::{
    color_of, file, file_of, mirror_sq, mirrored, piece_code, piece_color, piece_type, rank,
    rank_of, Color, PieceType, Square, EMPTY,
};
use vstd::prelude::*;

verus! {

// ---- The terms ----
/// The material value of a piece type in the middlegame.
pub open spec fn middle_value(t: int) -> int {
    if t == 0 {
        100
    } else if t == 1 {
        320
    } else if t == 2 {
        330
    } else if t == 3 {
        500
    } else if t == 4 {
        1000
    } else {
        0
    }
}

/// The material value of a piece type in the endgame.
pub open spec fn end_value(t: int) -> int {
    if t == 0 {
        120
    } else if t == 1 {
        310
    } else if t == 2 {
        320
    } else if t == 3 {
        550
    } else if t == 4 {
        1050
    } else {
        0
    }
}

/// What a piece type takes off the weight of the middlegame score.
pub open spec fn phase_value(t: int) -> int {
    if t == 1 || t == 2 {
        1
    } else if t == 3 {
        2
    } else if t == 4 {
        4
    } else {
        0
    }
}

/// The square as the side of this colour sees it.
pub open spec fn seen_from(c: Color, s: int) -> int {
    match c {
        Color::White => s,
        Color::Black => mirrored(s),
    }
}

/// No pawn of this colour stands on the file of `s`.
pub open spec fn file_is_free(m: Seq<u8>, c: Color, s: int) -> bool {
    forall|t: int|
        0 <= t < 64 && file(t) == file(s) ==> #[trigger] m[t] != piece_code(c, PieceType::Pawn)
}

/// The bonus of a rook by its file, in the middlegame: 40 on an open file, 20
/// on one without own pawns.
pub open spec fn rook_bonus(m: Seq<u8>, c: Color, s: int) -> int {
    if !file_is_free(m, c, s) {
        0
    } else if file_is_free(m, c.other(), s) {
        40
    } else {
        20
    }
}

/// A pawn of the other side on `t` can stop a pawn of this colour on `s`.
pub open spec fn stops(c: Color, s: int, t: int) -> bool {
    &&& -1 <= file(t) - file(s) <= 1
    &&& match c {
        Color::White => rank(t) > rank(s),
        Color::Black => rank(t) < rank(s),
    }
}

/// No pawn of the other side can stop the pawn on `s`.
pub open spec fn passed(m: Seq<u8>, c: Color, s: int) -> bool {
    forall|t: int|
        0 <= t < 64 && #[trigger] m[t] == piece_code(c.other(), PieceType::Pawn) ==> !stops(c, s, t)
}

/// The endgame bonus of a passed pawn by the rank that it has reached.
pub open spec fn passed_bonus(m: Seq<u8>, c: Color, s: int) -> int {
    let r = rank(seen_from(c, s));
    if !passed(m, c, s) {
        0
    } else if r == 1 {
        10
    } else if r == 2 {
        15
    } else if r == 3 {
        25
    } else if r == 4 {
        50
    } else if r == 5 {
        80
    } else if r == 6 {
        130
    } else {
        0
    }
}

/// How many squares a piece attacks that no own piece occupies.
pub open spec fn mobility(p: Position, c: Color, pt: PieceType, s: int) -> int {
    squares(
        attack_set(c, pt, p.colors@[0] | p.colors@[1], s) & !p.colors@[c.num()],
    ).len() as int
}

/// The mobility term of knights and bishops.
pub open spec fn mobility_bonus(p: Position, c: Color, t: int, s: int) -> int {
    if t == 1 {
        (mobility(p, c, PieceType::Knight, s) - 4) * 4
    } else if t == 2 {
        (mobility(p, c, PieceType::Bishop, s) - 5) * 5
    } else {
        0
    }
}

/// What the piece on a square counts in the middlegame.
pub open spec fn middle_term(p: Position, c: Color, t: int, s: int) -> int {
    middle_value(t) + middle_bonus(t, seen_from(c, s)) + (if t == 3 {
        rook_bonus(p.mailbox@, c, s)
    } else {
        0
    }) + (if t == 0 {
        passed_bonus(p.mailbox@, c, s) / 3
    } else {
        0
    }) + mobility_bonus(p, c, t, s)
}

/// What the piece on a square counts in the endgame. Apart from the king, the
/// table bonus is half that of the middlegame.
pub open spec fn end_term(p: Position, c: Color, t: int, s: int) -> int {
    end_value(t) + (if t == 5 {
        end_king_bonus(seen_from(c, s))
    } else {
        tdiv(middle_bonus(t, seen_from(c, s)), 2)
    }) + (if t == 3 {
        rook_bonus(p.mailbox@, c, s) / 2
    } else {
        0
    }) + (if t == 0 {
        passed_bonus(p.mailbox@, c, s)
    } else {
        0
    }) + mobility_bonus(p, c, t, s)
}

// ---- The sums ----
/// A side's middlegame terms on the first `n` squares.
pub open spec fn middle_sum(p: Position, c: Color, n: int) -> int
    decreases n,
{
    if n <= 0 {
        0
    } else {
        let code = p.mailbox@[n - 1] as int;
        middle_sum(p, c, n - 1) + (if code < 12 && color_of(code) == c {
            middle_term(p, c, code % 6, n - 1)
        } else {
            0
        })
    }
}

/// A side's endgame terms on the first `n` squares.
pub open spec fn end_sum(p: Position, c: Color, n: int) -> int
    decreases n,
{
    if n <= 0 {
        0
    } else {
        let code = p.mailbox@[n - 1] as int;
        end_sum(p, c, n - 1) + (if code < 12 && color_of(code) == c {
            end_term(p, c, code % 6, n - 1)
        } else {
            0
        })
    }
}

/// What the pieces on the first `n` squares take off that weight.
pub open spec fn phase_sum(m: Seq<u8>, n: int) -> int
    decreases n,
{
    if n <= 0 {
        0
    } else {
        phase_sum(m, n - 1) + (if m[n - 1] < 12 {
            phase_value(m[n - 1] as int % 6)
        } else {
            0
        })
    }
}

/// The side has at least two bishops.
pub open spec fn bishop_pair(p: Position, c: Color) -> bool {
    squares(p.pieces@[2] & p.colors@[c.num()]).len() >= 2
}

pub open spec fn middle_score(p: Position, c: Color) -> int {
    middle_sum(p, c, 64) + (if bishop_pair(p, c) {
        30int
    } else {
        0
    })
}

pub open spec fn end_score(p: Position, c: Color) -> int {
    end_sum(p, c, 64) + (if bishop_pair(p, c) {
        50int
    } else {
        0
    })
}

/// The weight of the middlegame score, in twenty-fourths.
pub open spec fn phase(p: Position) -> int {
    let left = 24 - phase_sum(p.mailbox@, 64);
    if left < 0 {
        0
    } else {
        left
    }
}

/// The evaluation in centipawns as the side to move sees it. It weighs the
/// middlegame and the endgame score by the phase.
pub open spec fn evaluation(p: Position) -> int {
    let mg = middle_score(p, p.side) - middle_score(p, p.side.other());
    let eg = end_score(p, p.side) - end_score(p, p.side.other());
    tdiv(mg * phase(p) + eg * (24 - phase(p)), 24) + 15
}

// ---- The code ----
/// The pawns of a colour, as a set.
proof fn pawn_set(p: Position, c: Color)
    requires
        p.wf_boards(),
    ensures
        forall|t: int|
            0 <= t < 64 ==> #[trigger] member(p.pieces@[0] & p.colors@[c.num()], t) == (p.mailbox@[t]
                == piece_code(c, PieceType::Pawn)),
{
    broadcast use group_bits;

    reveal(agree);
}

/// The squares of a file, as a set.
proof fn file_set(f: u64, t: int)
    requires
        f < 8,
        0 <= t < 64,
    ensures
        member(FILE_A << f, t) == (file(t) == f),
{
    broadcast use group_bits;

}

fn has_free_file(pos: &Position, color: Color, sq: Square) -> (b: bool)
    requires
        pos.wf_boards(),
        sq < 64,
    ensures
        b == file_is_free(pos.mailbox@, color, sq as int),
{
    broadcast use group_bits;

    let pawns: u64 = pos.pieces[0] & pos.colors[color.index()];
    let f: u8 = file_of(sq);
    let mask: u64 = FILE_A << (f as u64);
    proof {
        pawn_set(*pos, color);
        empty_set(pawns & mask);
        assert forall|t: int| 0 <= t < 64 implies #[trigger] member(pawns & mask, t) == (member(
            pawns,
            t,
        ) && file(t) == file(sq as int)) by {
            file_set(f as u64, t);
        }
        if pawns & mask == 0 {
            assert forall|t: int| 0 <= t < 64 && file(t) == file(sq as int) implies #[trigger] pos.mailbox@[t]
                != piece_code(color, PieceType::Pawn) by {
                assert(!member(pawns & mask, t));
            }
        } else {
            lowest_facts(pawns & mask);
            let t = crate::bitboard::lowest(pawns & mask);
            assert(member(pawns & mask, t));
            assert(member(pawns, t));
        }
    }
    pawns & mask == 0
}

fn is_passed(pos: &Position, color: Color, sq: Square) -> (b: bool)
    requires
        pos.wf_boards(),
        sq < 64,
    ensures
        b == passed(pos.mailbox@, color, sq as int),
{
    let theirs: u64 = pos.pieces[0] & pos.colors[color.flip().index()];
    let f: u8 = file_of(sq);
    let r: u8 = rank_of(sq);
    let mut left: u64 = theirs;
    proof {
        pawn_set(*pos, color.other());
    }
    while left != 0
        invariant
            sq < 64,
            f == file(sq as int),
            r == rank(sq as int),
            theirs == pos.pieces@[0] & pos.colors@[color.other().num()],
            forall|t: int|
                0 <= t < 64 ==> #[trigger] member(theirs, t) == (pos.mailbox@[t] == piece_code(
                    color.other(),
                    PieceType::Pawn,
                )),
            forall|t: int| 0 <= t < 64 && #[trigger] member(left, t) ==> member(theirs, t),
            forall|t: int|
                0 <= t < 64 && #[trigger] member(theirs, t) && !member(left, t) ==> !stops(
                    color,
                    sq as int,
                    t,
                ),
        decreases left,
    {
        let ghost before = left;
        proof {
            rest_facts(left);
        }
        let t: Square = pop_lsb(&mut left);
        let tf: u8 = file_of(t);
        let tr: u8 = rank_of(t);
        let near: bool = tf <= f + 1 && f <= tf + 1;
        let ahead: bool = match color {
            Color::White => tr > r,
            Color::Black => tr < r,
        };
        assert(member(before, t as int));
        assert(member(theirs, t as int));
        if near && ahead {
            assert(pos.mailbox@[t as int] == piece_code(color.other(), PieceType::Pawn));
            assert(stops(color, sq as int, t as int));
            return false;
        }
    }
    proof {
        empty_set(left);
        assert forall|t: int| 0 <= t < 64 && #[trigger] pos.mailbox@[t] == piece_code(
            color.other(),
            PieceType::Pawn,
        ) implies !stops(color, sq as int, t) by {
            assert(member(theirs, t));
            assert(!member(left, t));
        }
    }
    true
}

fn seen_square(color: Color, sq: Square) -> (s: Square)
    requires
        sq < 64,
    ensures
        s == seen_from(color, sq as int),
        s < 64,
{
    match color {
        Color::White => sq,
        Color::Black => mirror_sq(sq),
    }
}

fn rook_file_bonus(pos: &Position, color: Color, sq: Square) -> (b: i32)
    requires
        pos.wf_boards(),
        sq < 64,
    ensures
        b == rook_bonus(pos.mailbox@, color, sq as int),
        0 <= b <= 40,
{
    if !has_free_file(pos, color, sq) {
        0
    } else if has_free_file(pos, color.flip(), sq) {
        40
    } else {
        20
    }
}

fn passed_pawn_bonus(pos: &Position, color: Color, sq: Square) -> (b: i32)
    requires
        pos.wf_boards(),
        sq < 64,
    ensures
        b == passed_bonus(pos.mailbox@, color, sq as int),
        0 <= b <= 130,
{
    if !is_passed(pos, color, sq) {
        return 0;
    }
    match rank_of(seen_square(color, sq)) {
        1 => 10,
        2 => 15,
        3 => 25,
        4 => 50,
        5 => 80,
        6 => 130,
        _ => 0,
    }
}

fn mobility_of(pos: &Position, color: Color, pt: PieceType, sq: Square) -> (n: i32)
    requires
        sq < 64,
    ensures
        n == mobility(*pos, color, pt, sq as int),
        0 <= n <= 64,
{
    popcount(attacks_of(color, pt, pos.occupancy(), sq) & !pos.colors[color.index()]) as i32
}

/// What the piece on a square counts, in the middlegame and in the endgame.
fn piece_terms(pos: &Position, color: Color, pt: PieceType, sq: Square) -> (r: (i32, i32))
    requires
        pos.wf_boards(),
        sq < 64,
        pt != PieceType::NoType,
    ensures
        r.0 == middle_term(*pos, color, pt.num(), sq as int),
        r.1 == end_term(*pos, color, pt.num(), sq as int),
        -1700 <= r.0 <= 1700,
        -1700 <= r.1 <= 1700,
{
    let seen: usize = seen_square(color, sq) as usize;
    let table: i32 = middle_bonus_of(pt.index(), seen);
    match pt {
        PieceType::Pawn => {
            let bonus: i32 = passed_pawn_bonus(pos, color, sq);
            (100 + table + bonus / 3, 120 + table / 2 + bonus)
        },
        PieceType::Knight => {
            let mob: i32 = (mobility_of(pos, color, pt, sq) - 4) * 4;
            (320 + table + mob, 310 + table / 2 + mob)
        },
        PieceType::Bishop => {
            let mob: i32 = (mobility_of(pos, color, pt, sq) - 5) * 5;
            (330 + table + mob, 320 + table / 2 + mob)
        },
        PieceType::Rook => {
            let bonus: i32 = rook_file_bonus(pos, color, sq);
            (500 + table + bonus, 550 + table / 2 + bonus / 2)
        },
        PieceType::Queen => (1000 + table, 1050 + table / 2),
        PieceType::King => (table, end_king_bonus_of(seen)),
        PieceType::NoType => (0, 0),
    }
}

fn pair_bonus(pos: &Position, color: Color) -> (b: bool)
    ensures
        b == bishop_pair(*pos, color),
{
    popcount(pos.pieces[2] & pos.colors[color.index()]) >= 2
}

fn phase_of(pt: PieceType) -> (v: i32)
    requires
        pt != PieceType::NoType,
    ensures
        v == phase_value(pt.num()),
        0 <= v <= 4,
{
    match pt {
        PieceType::Knight => 1,
        PieceType::Bishop => 1,
        PieceType::Rook => 2,
        PieceType::Queen => 4,
        _ => 0,
    }
}

/// The static evaluation in centipawns, as the side to move sees it.
pub fn evaluate(pos: &Position) -> (score: i32)
    requires
        pos.wf_boards(),
    ensures
        score == evaluation(*pos),
        -250_000 <= score <= 250_000,
{
    let mut mg: [i32; 2] = [0, 0];
    let mut eg: [i32; 2] = [0, 0];
    let mut phase: i32 = 24;
    let mut i: u8 = 0;
    while i < 64
        invariant
            pos.wf_boards(),
            i <= 64,
            mg@[0] == middle_sum(*pos, Color::White, i as int),
            mg@[1] == middle_sum(*pos, Color::Black, i as int),
            eg@[0] == end_sum(*pos, Color::White, i as int),
            eg@[1] == end_sum(*pos, Color::Black, i as int),
            phase == 24 - phase_sum(pos.mailbox@, i as int),
            -1700 * i <= mg@[0] <= 1700 * i,
            -1700 * i <= mg@[1] <= 1700 * i,
            -1700 * i <= eg@[0] <= 1700 * i,
            -1700 * i <= eg@[1] <= 1700 * i,
            24 - 4 * i <= phase <= 24,
        decreases 64 - i,
    {
        let piece: u8 = pos.mailbox[i as usize];
        proof {
            codes_bounded(*pos);
        }
        if piece < EMPTY {
            let color: Color = piece_color(piece);
            let pt: PieceType = piece_type(piece);
            let terms: (i32, i32) = piece_terms(pos, color, pt, i);
            let k: usize = color.index();
            mg[k] = mg[k] + terms.0;
            eg[k] = eg[k] + terms.1;
            phase = phase - phase_of(pt);
        }
        i = i + 1;
    }
    if pair_bonus(pos, Color::White) {
        mg[0] = mg[0] + 30;
        eg[0] = eg[0] + 50;
    }
    if pair_bonus(pos, Color::Black) {
        mg[1] = mg[1] + 30;
        eg[1] = eg[1] + 50;
    }
    if phase < 0 {
        phase = 0;
    }
    let us: usize = pos.side.index();
    let them: usize = pos.side.flip().index();
    let a: i32 = mg[us] - mg[them];
    let b: i32 = eg[us] - eg[them];
    proof {
        taper_bounds(a as int, b as int, phase as int);
    }
    (a * phase + b * (24 - phase)) / 24 + 15
}

proof fn taper_bounds(a: int, b: int, ph: int)
    requires
        -220_000 <= a <= 220_000,
        -220_000 <= b <= 220_000,
        0 <= ph <= 24,
    ensures
        -220_000 * ph <= a * ph <= 220_000 * ph,
        -220_000 * (24 - ph) <= b * (24 - ph) <= 220_000 * (24 - ph),
{
    assert(-220_000 * ph <= a * ph <= 220_000 * ph) by (nonlinear_arith)
        requires
            -220_000 <= a <= 220_000,
            0 <= ph,
    ;
    let q = 24 - ph;
    assert(-220_000 * q <= b * q <= 220_000 * q) by (nonlinear_arith)
        requires
            -220_000 <= b <= 220_000,
            0 <= q,
    ;
}

} // verus!
