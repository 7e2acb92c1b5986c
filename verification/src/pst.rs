//! Piece-square tables, as White sees the board: a1 is the first entry.

use vstd::prelude::*;

verus! {

pub const MG_PAWN_PST: [i8; 64] = [
    0, 0, 0, 0, 0, 0, 0, 0,
    5, 10, 10, -20, -20, 10, 10, 5,
    5, -5, -10, 0, 0, -10, -5, 5,
    0, 0, 0, 20, 20, 0, 0, 0,
    5, 5, 10, 25, 25, 10, 5, 5,
    10, 10, 20, 30, 30, 20, 10, 10,
    50, 50, 50, 50, 50, 50, 50, 50,
    0, 0, 0, 0, 0, 0, 0, 0,
];

pub const MG_KNIGHT_PST: [i8; 64] = [
    -50, -40, -30, -30, -30, -30, -40, -50,
    -40, -20, 0, 5, 5, 0, -20, -40,
    -30, 5, 10, 15, 15, 10, 5, -30,
    -30, 0, 15, 20, 20, 15, 0, -30,
    -30, 5, 15, 20, 20, 15, 5, -30,
    -30, 0, 10, 15, 15, 10, 0, -30,
    -40, -20, 0, 0, 0, 0, -20, -40,
    -50, -40, -30, -30, -30, -30, -40, -50,
];

pub const MG_BISHOP_PST: [i8; 64] = [
    -20, -10, -10, -10, -10, -10, -10, -20,
    -10, 5, 0, 0, 0, 0, 5, -10,
    -10, 10, 10, 10, 10, 10, 10, -10,
    -10, 0, 10, 10, 10, 10, 0, -10,
    -10, 5, 5, 10, 10, 5, 5, -10,
    -10, 0, 5, 10, 10, 5, 0, -10,
    -10, 0, 0, 0, 0, 0, 0, -10,
    -20, -10, -10, -10, -10, -10, -10, -20,
];

pub const MG_ROOK_PST: [i8; 64] = [
    0, 0, 0, 5, 5, 0, 0, 0,
    -5, 0, 0, 0, 0, 0, 0, -5,
    -5, 0, 0, 0, 0, 0, 0, -5,
    -5, 0, 0, 0, 0, 0, 0, -5,
    -5, 0, 0, 0, 0, 0, 0, -5,
    -5, 0, 0, 0, 0, 0, 0, -5,
    5, 10, 10, 10, 10, 10, 10, 5,
    0, 0, 0, 0, 0, 0, 0, 0,
];

pub const MG_QUEEN_PST: [i8; 64] = [
    -20, -10, -10, -5, -5, -10, -10, -20,
    -10, 0, 5, 0, 0, 0, 0, -10,
    -10, 5, 5, 5, 5, 5, 0, -10,
    0, 0, 5, 5, 5, 5, 0, -5,
    -5, 0, 5, 5, 5, 5, 0, -5,
    -10, 0, 5, 5, 5, 5, 0, -10,
    -10, 0, 0, 0, 0, 0, 0, -10,
    -20, -10, -10, -5, -5, -10, -10, -20,
];

pub const MG_KING_PST: [i8; 64] = [
    20, 30, 10, 0, 0, 10, 30, 20,
    20, 20, 0, 0, 0, 0, 20, 20,
    -10, -20, -20, -20, -20, -20, -20, -10,
    -20, -30, -30, -40, -40, -30, -30, -20,
    -30, -40, -40, -50, -50, -40, -40, -30,
    -30, -40, -40, -50, -50, -40, -40, -30,
    -30, -40, -40, -50, -50, -40, -40, -30,
    -30, -40, -40, -50, -50, -40, -40, -30,
];

pub const EG_KING_PST: [i8; 64] = [
    -50, -30, -30, -30, -30, -30, -30, -50,
    -30, -20, -10, 0, 0, -10, -20, -30,
    -30, -10, 20, 30, 30, 20, -10, -30,
    -30, -10, 30, 40, 40, 30, -10, -30,
    -30, -10, 30, 40, 40, 30, -10, -30,
    -30, -10, 20, 30, 30, 20, -10, -30,
    -30, -30, 0, 0, 0, 0, -30, -30,
    -50, -30, -30, -30, -30, -30, -30, -50,
];

/// The middlegame bonus of a piece type on a square.
#[verifier::opaque]
pub open spec fn middle_bonus(t: int, s: int) -> int {
    if t == 0 {
        MG_PAWN_PST[s] as int
    } else if t == 1 {
        MG_KNIGHT_PST[s] as int
    } else if t == 2 {
        MG_BISHOP_PST[s] as int
    } else if t == 3 {
        MG_ROOK_PST[s] as int
    } else if t == 4 {
        MG_QUEEN_PST[s] as int
    } else {
        MG_KING_PST[s] as int
    }
}

/// The endgame bonus of a king on a square.
#[verifier::opaque]
pub open spec fn end_king_bonus(s: int) -> int {
    EG_KING_PST[s] as int
}

pub fn middle_bonus_of(t: usize, s: usize) -> (v: i32)
    requires
        t < 6,
        s < 64,
    ensures
        v == middle_bonus(t as int, s as int),
        -128 <= v <= 127,
{
    proof {
        reveal(middle_bonus);
    }
    let b: i8 = if t == 0 {
        MG_PAWN_PST[s]
    } else if t == 1 {
        MG_KNIGHT_PST[s]
    } else if t == 2 {
        MG_BISHOP_PST[s]
    } else if t == 3 {
        MG_ROOK_PST[s]
    } else if t == 4 {
        MG_QUEEN_PST[s]
    } else {
        MG_KING_PST[s]
    };
    b as i32
}

pub fn end_king_bonus_of(s: usize) -> (v: i32)
    requires
        s < 64,
    ensures
        v == end_king_bonus(s as int),
        -128 <= v <= 127,
{
    proof {
        reveal(end_king_bonus);
    }
    EG_KING_PST[s] as i32
}

} // verus!
