//! Attacks of the stepping pieces, and of whole sides.

use crate::bitboard::{
    bit, bit_of, contains, empty_set, group_bits, has_bit, has_zero, lowest, lowest_facts, lsb,
    member, pop_lsb, rest_facts, same_squares, shift_east, shift_ne, shift_north, shift_nw,
    shift_se, shift_south, shift_sw, shift_west, NOT_FILE_A, NOT_FILE_AB, NOT_FILE_GH, NOT_FILE_H,
};
use crate::magic::{
    abs, along, bishop_attacks, bishop_reach, bishop_symmetric, distance, end_of_ray, on_ray,
    on_the_way, queen_attacks, rook_attacks, rook_reach, rook_symmetric, slides,
};
use crate::types::{file, on_board, rank, Color, PieceType, Square};
use vstd::prelude::*;

verus! {

/// A knight on `s` attacks `t`.
pub open spec fn knight_step(s: int, t: int) -> bool {
    ||| abs(file(t) - file(s)) == 1 && abs(rank(t) - rank(s)) == 2
    ||| abs(file(t) - file(s)) == 2 && abs(rank(t) - rank(s)) == 1
}

/// A king on `s` attacks `t`.
pub open spec fn king_step(s: int, t: int) -> bool {
    s != t && abs(file(t) - file(s)) <= 1 && abs(rank(t) - rank(s)) <= 1
}

/// A pawn of this colour on `s` attacks `t`.
pub open spec fn pawn_step(c: Color, s: int, t: int) -> bool {
    &&& abs(file(t) - file(s)) == 1
    &&& rank(t) - rank(s) == (if c == Color::White {
        1
    } else {
        -1int
    })
}

pub fn knight_attacks(sq: Square) -> (bb: u64)
    requires
        sq < 64,
    ensures
        forall|t: int| 0 <= t < 64 ==> #[trigger] member(bb, t) == knight_step(sq as int, t),
{
    broadcast use group_bits;

    let b: u64 = bit(sq);
    ((b << 17) & NOT_FILE_A) | ((b << 15) & NOT_FILE_H) | ((b << 10) & NOT_FILE_AB) | ((b << 6)
        & NOT_FILE_GH) | ((b >> 17) & NOT_FILE_H) | ((b >> 15) & NOT_FILE_A) | ((b >> 10)
        & NOT_FILE_GH) | ((b >> 6) & NOT_FILE_AB)
}

pub fn king_attacks(sq: Square) -> (bb: u64)
    requires
        sq < 64,
    ensures
        forall|t: int| 0 <= t < 64 ==> #[trigger] member(bb, t) == king_step(sq as int, t),
{
    broadcast use group_bits;

    let b: u64 = bit(sq);
    shift_north(b) | shift_south(b) | shift_east(b) | shift_west(b) | shift_ne(b) | shift_nw(b)
        | shift_se(b) | shift_sw(b)
}

pub fn pawn_attacks(color: Color, sq: Square) -> (bb: u64)
    requires
        sq < 64,
    ensures
        forall|t: int|
            0 <= t < 64 ==> #[trigger] member(bb, t) == pawn_step(color, sq as int, t),
{
    broadcast use group_bits;

    let b: u64 = bit(sq);
    match color {
        Color::White => shift_ne(b) | shift_nw(b),
        Color::Black => shift_se(b) | shift_sw(b),
    }
}

/// Step attacks go both ways; those of a pawn are seen by the other colour.
pub proof fn steps_symmetric(c: Color, s: int, t: int)
    ensures
        knight_step(s, t) == knight_step(t, s),
        king_step(s, t) == king_step(t, s),
        pawn_step(c, s, t) == pawn_step(c.other(), t, s),
{
}

/// A piece of type `pt` and colour `c` that stands on `s` attacks `t`.
pub open spec fn piece_attacks(c: Color, pt: PieceType, occ: u64, s: int, t: int) -> bool {
    match pt {
        PieceType::Pawn => pawn_step(c, s, t),
        PieceType::Knight => knight_step(s, t),
        PieceType::Bishop => bishop_reach(occ, s, t),
        PieceType::Rook => rook_reach(occ, s, t),
        PieceType::Queen => bishop_reach(occ, s, t) || rook_reach(occ, s, t),
        PieceType::King => king_step(s, t),
        PieceType::NoType => false,
    }
}

/// `bb` is the set of the squares that a piece on `s` attacks.
pub open spec fn is_attack_set(bb: u64, c: Color, pt: PieceType, occ: u64, s: int) -> bool {
    forall|t: int| 0 <= t < 64 ==> #[trigger] member(bb, t) == piece_attacks(c, pt, occ, s, t)
}

/// The set of the squares that a piece on `s` attacks.
pub open spec fn attack_set(c: Color, pt: PieceType, occ: u64, s: int) -> u64 {
    choose|bb: u64| is_attack_set(bb, c, pt, occ, s)
}

/// There is only one set of attacked squares.
pub proof fn attack_set_unique(bb: u64, c: Color, pt: PieceType, occ: u64, s: int)
    requires
        is_attack_set(bb, c, pt, occ, s),
    ensures
        bb == attack_set(c, pt, occ, s),
{
    let x = attack_set(c, pt, occ, s);
    assert(is_attack_set(x, c, pt, occ, s));
    assert forall|t: int| 0 <= t < 64 implies #[trigger] member(bb, t) == member(x, t) by {}
    same_squares(bb, x);
}

/// The squares that a piece attacks.
pub fn attacks_of(color: Color, pt: PieceType, occ: u64, sq: Square) -> (bb: u64)
    requires
        sq < 64,
    ensures
        bb == attack_set(color, pt, occ, sq as int),
        is_attack_set(bb, color, pt, occ, sq as int),
{
    let bb: u64 = match pt {
        PieceType::Pawn => pawn_attacks(color, sq),
        PieceType::Knight => knight_attacks(sq),
        PieceType::Bishop => bishop_attacks(sq, occ),
        PieceType::Rook => rook_attacks(sq, occ),
        PieceType::Queen => queen_attacks(sq, occ),
        PieceType::King => king_attacks(sq),
        PieceType::NoType => 0,
    };
    proof {
        empty_set(0);
        assert(is_attack_set(bb, color, pt, occ, sq as int));
        attack_set_unique(bb, color, pt, occ, sq as int);
    }
    bb
}

/// On `s` stands a piece of the side `us` that attacks `t`.
pub open spec fn attacks_from(
    pieces: Seq<u64>,
    us: u64,
    c: Color,
    occ: u64,
    s: int,
    t: int,
) -> bool {
    &&& on_board(s)
    &&& member(us, s)
    &&& {
        ||| member(pieces[0], s) && pawn_step(c, s, t)
        ||| member(pieces[1], s) && knight_step(s, t)
        ||| (member(pieces[2], s) || member(pieces[4], s)) && bishop_reach(occ, s, t)
        ||| (member(pieces[3], s) || member(pieces[4], s)) && rook_reach(occ, s, t)
        ||| member(pieces[5], s) && king_step(s, t)
    }
}

/// Square `t` is attacked by a piece of the colour `by`.
#[verifier::opaque]
pub open spec fn attacked(pieces: Seq<u64>, colors: Seq<u64>, t: int, by: Color) -> bool {
    exists|s: int|
        #[trigger] attacks_from(pieces, colors[by.num()], by, colors[0] | colors[1], s, t)
}

/// Square `sq` is attacked by the side `by_color`.
pub fn is_attacked(
    pos_pieces: &[u64; 6],
    pos_colors: &[u64; 2],
    sq: Square,
    by_color: Color,
) -> (b: bool)
    requires
        sq < 64,
    ensures
        b == attacked(pos_pieces@, pos_colors@, sq as int, by_color),
{
    reveal(attacked);
    broadcast use group_bits;

    let them: u64 = pos_colors[by_color.index()];
    let occ: u64 = pos_colors[0] | pos_colors[1];
    let ghost p = pos_pieces@;
    let ghost t = sq as int;
    let a: u64 = pawn_attacks(by_color.flip(), sq) & pos_pieces[0] & them;
    let n: u64 = knight_attacks(sq) & pos_pieces[1] & them;
    let k: u64 = king_attacks(sq) & pos_pieces[5] & them;
    let d: u64 = bishop_attacks(sq, occ) & ((pos_pieces[2] | pos_pieces[4]) & them);
    let r: u64 = rook_attacks(sq, occ) & ((pos_pieces[3] | pos_pieces[4]) & them);
    proof {
        empty_set(a);
        empty_set(n);
        empty_set(k);
        empty_set(d);
        empty_set(r);
        assert forall|s: int| 0 <= s < 64 implies #[trigger] attacks_from(
            p,
            them,
            by_color,
            occ,
            s,
            t,
        ) == (member(a, s) || member(n, s) || member(k, s) || member(d, s) || member(r, s)) by {
            steps_symmetric(by_color, s, t);
            bishop_symmetric(occ, s, t);
            rook_symmetric(occ, s, t);
        }
        assert forall|s: int|
            0 <= s < 64 && (member(a, s) || member(n, s) || member(k, s) || member(d, s)
                || member(r, s)) implies attacked(p, pos_colors@, t, by_color) by {
            assert(attacks_from(p, them, by_color, occ, s, t));
        }
    }
    a != 0 || n != 0 || k != 0 || d != 0 || r != 0
}

/// What one kind of piece attacks from the squares of `from`.
pub open spec fn reaches(kind: int, c: Color, occ: u64, s: int, t: int) -> bool {
    if kind == 0 {
        pawn_step(c, s, t)
    } else if kind == 1 {
        knight_step(s, t)
    } else if kind == 2 {
        bishop_reach(occ, s, t)
    } else if kind == 3 {
        rook_reach(occ, s, t)
    } else {
        king_step(s, t)
    }
}

/// The squares that pieces of one kind on the squares `from` attack.
fn attacks_of_kind(kind: u8, color: Color, from: u64, occ: u64) -> (bb: u64)
    requires
        kind <= 4,
    ensures
        forall|t: int|
            0 <= t < 64 ==> #[trigger] member(bb, t) == (exists|s: int|
                0 <= s < 64 && member(from, s) && #[trigger] reaches(
                    kind as int,
                    color,
                    occ,
                    s,
                    t,
                )),
{
    broadcast use group_bits;

    let mut left: u64 = from;
    let mut bb: u64 = 0;
    proof {
        empty_set(0);
    }
    while left != 0
        invariant
            kind <= 4,
            forall|s: int| 0 <= s < 64 && member(left, s) ==> #[trigger] member(from, s),
            forall|t: int|
                0 <= t < 64 ==> #[trigger] member(bb, t) == (exists|s: int|
                    0 <= s < 64 && member(from, s) && !member(left, s) && #[trigger] reaches(
                        kind as int,
                        color,
                        occ,
                        s,
                        t,
                    )),
        decreases left,
    {
        broadcast use group_bits;

        let ghost l0 = left;
        let ghost b0 = bb;
        let sq: Square = pop_lsb(&mut left);
        proof {
            rest_facts(l0);
        }
        let a: u64 = if kind == 0 {
            pawn_attacks(color, sq)
        } else if kind == 1 {
            knight_attacks(sq)
        } else if kind == 2 {
            bishop_attacks(sq, occ)
        } else if kind == 3 {
            rook_attacks(sq, occ)
        } else {
            king_attacks(sq)
        };
        bb = bb | a;
        proof {
            assert forall|t: int| 0 <= t < 64 implies #[trigger] member(bb, t) == (exists|s: int|
                0 <= s < 64 && member(from, s) && !member(left, s) && #[trigger] reaches(
                    kind as int,
                    color,
                    occ,
                    s,
                    t,
                )) by {
                if member(b0, t) {
                    let s = choose|s: int|
                        0 <= s < 64 && member(from, s) && !member(l0, s) && #[trigger] reaches(
                            kind as int,
                            color,
                            occ,
                            s,
                            t,
                        );
                    assert(!member(left, s));
                }
                if member(a, t) {
                    assert(reaches(kind as int, color, occ, sq as int, t));
                    assert(member(from, sq as int));
                }
                if exists|s: int|
                    0 <= s < 64 && member(from, s) && !member(left, s) && #[trigger] reaches(
                        kind as int,
                        color,
                        occ,
                        s,
                        t,
                    ) {
                    let s = choose|s: int|
                        0 <= s < 64 && member(from, s) && !member(left, s) && #[trigger] reaches(
                            kind as int,
                            color,
                            occ,
                            s,
                            t,
                        );
                    if s == sq {
                        assert(member(a, t));
                    } else {
                        assert(!member(l0, s));
                        assert(member(b0, t));
                    }
                }
            }
        }
    }
    proof {
        assert forall|t: int| 0 <= t < 64 implies #[trigger] member(bb, t) == (exists|s: int|
            0 <= s < 64 && member(from, s) && #[trigger] reaches(
                kind as int,
                color,
                occ,
                s,
                t,
            )) by {
            if exists|s: int|
                0 <= s < 64 && member(from, s) && #[trigger] reaches(
                    kind as int,
                    color,
                    occ,
                    s,
                    t,
                ) {
                let s = choose|s: int|
                    0 <= s < 64 && member(from, s) && #[trigger] reaches(
                        kind as int,
                        color,
                        occ,
                        s,
                        t,
                    );
                assert(!member(left, s));
            }
        }
    }
    bb
}

/// On `s` stands a piece of the side that attacks `t`; of several kings only the
/// one on the lowest square counts.
pub open spec fn side_attacks_from(
    pieces: Seq<u64>,
    us: u64,
    c: Color,
    occ: u64,
    s: int,
    t: int,
) -> bool {
    &&& on_board(s)
    &&& member(us, s)
    &&& {
        ||| member(pieces[0], s) && pawn_step(c, s, t)
        ||| member(pieces[1], s) && knight_step(s, t)
        ||| (member(pieces[2], s) || member(pieces[4], s)) && bishop_reach(occ, s, t)
        ||| (member(pieces[3], s) || member(pieces[4], s)) && rook_reach(occ, s, t)
        ||| s == lowest(pieces[5] & us) && king_step(s, t)
    }
}

/// All squares that the side attacks.
pub fn attacks_by_color(pos_pieces: &[u64; 6], pos_colors: &[u64; 2], color: Color) -> (bb: u64)
    ensures
        forall|t: int|
            0 <= t < 64 ==> #[trigger] member(bb, t) == (exists|s: int| #[trigger]
                side_attacks_from(
                    pos_pieces@,
                    pos_colors@[color.num()],
                    color,
                    pos_colors@[0] | pos_colors@[1],
                    s,
                    t,
                )),
{
    broadcast use group_bits;

    let us: u64 = pos_colors[color.index()];
    let occ: u64 = pos_colors[0] | pos_colors[1];
    let ghost p = pos_pieces@;
    let p0: u64 = pos_pieces[0] & us;
    let p1: u64 = pos_pieces[1] & us;
    let p2: u64 = (pos_pieces[2] | pos_pieces[4]) & us;
    let p3: u64 = (pos_pieces[3] | pos_pieces[4]) & us;
    let k: u64 = pos_pieces[5] & us;
    let a0: u64 = attacks_of_kind(0, color, p0, occ);
    let a1: u64 = attacks_of_kind(1, color, p1, occ);
    let a2: u64 = attacks_of_kind(2, color, p2, occ);
    let a3: u64 = attacks_of_kind(3, color, p3, occ);
    let a4: u64 = if k != 0 {
        king_attacks(lsb(k))
    } else {
        0
    };
    let bb: u64 = a0 | a1 | a2 | a3 | a4;
    proof {
        lowest_facts(k);
        empty_set(0);
        assert forall|t: int| 0 <= t < 64 implies #[trigger] member(bb, t) == (exists|s: int|
         #[trigger] side_attacks_from(p, us, color, occ, s, t)) by {
            if member(a0, t) {
                let s = choose|s: int|
                    0 <= s < 64 && member(p0, s) && #[trigger] reaches(0, color, occ, s, t);
                assert(side_attacks_from(p, us, color, occ, s, t));
            }
            if member(a1, t) {
                let s = choose|s: int|
                    0 <= s < 64 && member(p1, s) && #[trigger] reaches(1, color, occ, s, t);
                assert(side_attacks_from(p, us, color, occ, s, t));
            }
            if member(a2, t) {
                let s = choose|s: int|
                    0 <= s < 64 && member(p2, s) && #[trigger] reaches(2, color, occ, s, t);
                assert(side_attacks_from(p, us, color, occ, s, t));
            }
            if member(a3, t) {
                let s = choose|s: int|
                    0 <= s < 64 && member(p3, s) && #[trigger] reaches(3, color, occ, s, t);
                assert(side_attacks_from(p, us, color, occ, s, t));
            }
            if member(a4, t) {
                assert(side_attacks_from(p, us, color, occ, lowest(k), t));
            }
            if exists|s: int| #[trigger] side_attacks_from(p, us, color, occ, s, t) {
                let s = choose|s: int| #[trigger]
                    side_attacks_from(p, us, color, occ, s, t);
                assert(member(p0, s) && pawn_step(color, s, t) ==> reaches(0, color, occ, s, t));
                assert(member(p1, s) && knight_step(s, t) ==> reaches(1, color, occ, s, t));
                assert(member(p2, s) && bishop_reach(occ, s, t) ==> reaches(2, color, occ, s, t));
                assert(member(p3, s) && rook_reach(occ, s, t) ==> reaches(3, color, occ, s, t));
            }
        }
    }
    bb
}

// ---- Lines between squares ----
/// `t` lies between `s1` and `s2` in this direction.
pub open spec fn between_on(s1: int, s2: int, t: int, df: int, dr: int) -> bool {
    on_ray(s1, s2, df, dr) && on_ray(s1, t, df, dr) && distance(s1, t) < distance(s1, s2)
}

/// `t` lies strictly between two squares of a rank or file.
pub open spec fn straight_between(s1: int, s2: int, t: int) -> bool {
    between_on(s1, s2, t, 1, 0) || between_on(s1, s2, t, -1, 0) || between_on(s1, s2, t, 0, 1)
        || between_on(s1, s2, t, 0, -1)
}

/// `t` lies strictly between two squares of a diagonal.
pub open spec fn diagonal_between(s1: int, s2: int, t: int) -> bool {
    between_on(s1, s2, t, 1, 1) || between_on(s1, s2, t, 1, -1) || between_on(s1, s2, t, -1, 1)
        || between_on(s1, s2, t, -1, -1)
}

/// `t` lies on the line through `s1` and `s2` in this direction.
pub open spec fn line_on(s1: int, s2: int, t: int, df: int, dr: int) -> bool {
    on_ray(s1, s2, df, dr) && (t == s1 || on_ray(s1, t, df, dr) || on_ray(s1, t, -df, -dr))
}

/// `t` lies on the rank or file through two squares.
pub open spec fn straight_line(s1: int, s2: int, t: int) -> bool {
    line_on(s1, s2, t, 1, 0) || line_on(s1, s2, t, -1, 0) || line_on(s1, s2, t, 0, 1) || line_on(
        s1,
        s2,
        t,
        0,
        -1,
    )
}

/// `t` lies on the diagonal through two squares.
pub open spec fn diagonal_line(s1: int, s2: int, t: int) -> bool {
    line_on(s1, s2, t, 1, 1) || line_on(s1, s2, t, 1, -1) || line_on(s1, s2, t, -1, 1) || line_on(
        s1,
        s2,
        t,
        -1,
        -1,
    )
}

/// A slider that is alone with a square sees up to it in its direction.
proof fn sees_up_to(s: int, u: int, t: int, df: int, dr: int)
    requires
        on_board(s),
        on_board(u),
        on_board(t),
        -1 <= df <= 1,
        -1 <= dr <= 1,
        df != 0 || dr != 0,
    ensures
        slides(bit_of(u), s, t, df, dr) == (on_ray(s, t, df, dr) && !(on_ray(s, u, df, dr)
            && distance(s, u) < distance(s, t))),
{
    if on_ray(s, t, df, dr) {
        let n = distance(s, t);
        if on_ray(s, u, df, dr) && distance(s, u) < n {
            let k = distance(s, u);
            end_of_ray(s, u, df, dr);
            has_bit(u, u);
            assert(member(bit_of(u), along(s, df, dr, k)));
        } else {
            assert forall|k: int| 1 <= k < n implies !member(
                bit_of(u),
                #[trigger] along(s, df, dr, k),
            ) by {
                on_the_way(s, t, df, dr, k);
                has_bit(u, along(s, df, dr, k));
            }
        }
    }
}

/// A slider that is alone on the board.
proof fn sees_all(s: int, t: int, df: int, dr: int)
    requires
        on_board(s),
        on_board(t),
        -1 <= df <= 1,
        -1 <= dr <= 1,
    ensures
        slides(0, s, t, df, dr) == on_ray(s, t, df, dr),
{
    if on_ray(s, t, df, dr) {
        assert forall|k: int| 1 <= k < distance(s, t) implies !member(
            0,
            #[trigger] along(s, df, dr, k),
        ) by {
            has_zero(along(s, df, dr, k));
        }
    }
}

proof fn straight_facts(s1: int, s2: int, t: int)
    requires
        on_board(s1),
        on_board(s2),
        on_board(t),
        rook_reach(0, s1, s2),
    ensures
        (rook_reach(bit_of(s2), s1, t) && rook_reach(bit_of(s1), s2, t)) == straight_between(
            s1,
            s2,
            t,
        ),
        ((rook_reach(0, s1, t) && rook_reach(0, s2, t)) || t == s1 || t == s2) == straight_line(
            s1,
            s2,
            t,
        ),
{
    sees_up_to(s1, s2, t, 1, 0);
    sees_up_to(s1, s2, t, -1, 0);
    sees_up_to(s1, s2, t, 0, 1);
    sees_up_to(s1, s2, t, 0, -1);
    sees_up_to(s2, s1, t, 1, 0);
    sees_up_to(s2, s1, t, -1, 0);
    sees_up_to(s2, s1, t, 0, 1);
    sees_up_to(s2, s1, t, 0, -1);
    sees_all(s1, t, 1, 0);
    sees_all(s1, t, -1, 0);
    sees_all(s1, t, 0, 1);
    sees_all(s1, t, 0, -1);
    sees_all(s2, t, 1, 0);
    sees_all(s2, t, -1, 0);
    sees_all(s2, t, 0, 1);
    sees_all(s2, t, 0, -1);
}

proof fn diagonal_facts(s1: int, s2: int, t: int)
    requires
        on_board(s1),
        on_board(s2),
        on_board(t),
        bishop_reach(0, s1, s2),
    ensures
        (bishop_reach(bit_of(s2), s1, t) && bishop_reach(bit_of(s1), s2, t)) == diagonal_between(
            s1,
            s2,
            t,
        ),
        ((bishop_reach(0, s1, t) && bishop_reach(0, s2, t)) || t == s1 || t == s2) == diagonal_line(
            s1,
            s2,
            t,
        ),
{
    sees_up_to(s1, s2, t, 1, 1);
    sees_up_to(s1, s2, t, -1, 1);
    sees_up_to(s1, s2, t, 1, -1);
    sees_up_to(s1, s2, t, -1, -1);
    sees_up_to(s2, s1, t, 1, 1);
    sees_up_to(s2, s1, t, -1, 1);
    sees_up_to(s2, s1, t, 1, -1);
    sees_up_to(s2, s1, t, -1, -1);
    sees_all(s1, t, 1, 1);
    sees_all(s1, t, -1, 1);
    sees_all(s1, t, 1, -1);
    sees_all(s1, t, -1, -1);
    sees_all(s2, t, 1, 1);
    sees_all(s2, t, -1, 1);
    sees_all(s2, t, 1, -1);
    sees_all(s2, t, -1, -1);
}

/// Without a rank, file or diagonal through two squares nothing lies between them.
proof fn not_aligned(s1: int, s2: int, t: int)
    requires
        on_board(s1),
        on_board(s2),
        on_board(t),
    ensures
        !rook_reach(0, s1, s2) ==> !straight_between(s1, s2, t) && !straight_line(s1, s2, t),
        !bishop_reach(0, s1, s2) ==> !diagonal_between(s1, s2, t) && !diagonal_line(s1, s2, t),
        rook_reach(0, s1, s2) ==> !bishop_reach(0, s1, s2),
{
    sees_all(s1, s2, 1, 0);
    sees_all(s1, s2, -1, 0);
    sees_all(s1, s2, 0, 1);
    sees_all(s1, s2, 0, -1);
    sees_all(s1, s2, 1, 1);
    sees_all(s1, s2, -1, 1);
    sees_all(s1, s2, 1, -1);
    sees_all(s1, s2, -1, -1);
}

/// The squares strictly between two squares of a rank, file or diagonal; none
/// for other squares.
pub fn between(s1: Square, s2: Square) -> (bb: u64)
    requires
        s1 < 64,
        s2 < 64,
    ensures
        forall|t: int|
            0 <= t < 64 ==> #[trigger] member(bb, t) == (straight_between(s1 as int, s2 as int, t)
                || diagonal_between(s1 as int, s2 as int, t)),
{
    broadcast use group_bits;

    let a: u64 = bit(s1);
    let b: u64 = bit(s2);
    proof {
        assert forall|t: int| on_board(t) implies #[trigger] lines_known(s1 as int, s2 as int, t) by {
            not_aligned(s1 as int, s2 as int, t);
            if rook_reach(0, s1 as int, s2 as int) {
                straight_facts(s1 as int, s2 as int, t);
            }
            if bishop_reach(0, s1 as int, s2 as int) {
                diagonal_facts(s1 as int, s2 as int, t);
            }
        }
    }
    let bb: u64 = if contains(rook_attacks(s1, 0), s2) {
        rook_attacks(s1, b) & rook_attacks(s2, a)
    } else if contains(bishop_attacks(s1, 0), s2) {
        bishop_attacks(s1, b) & bishop_attacks(s2, a)
    } else {
        0
    };
    proof {
        assert forall|t: int| 0 <= t < 64 implies #[trigger] member(bb, t) == (straight_between(
            s1 as int,
            s2 as int,
            t,
        ) || diagonal_between(s1 as int, s2 as int, t)) by {
            assert(lines_known(s1 as int, s2 as int, t));
        }
    }
    bb
}

/// What is between two squares and on their line, told by the sliders.
spec fn lines_known(s1: int, s2: int, t: int) -> bool {
    &&& rook_reach(0, s1, s2) ==> {
        &&& !bishop_reach(0, s1, s2)
        &&& (rook_reach(bit_of(s2), s1, t) && rook_reach(bit_of(s1), s2, t)) == straight_between(
            s1,
            s2,
            t,
        )
        &&& ((rook_reach(0, s1, t) && rook_reach(0, s2, t)) || t == s1 || t == s2)
            == straight_line(s1, s2, t)
    }
    &&& bishop_reach(0, s1, s2) ==> {
        &&& (bishop_reach(bit_of(s2), s1, t) && bishop_reach(bit_of(s1), s2, t))
            == diagonal_between(s1, s2, t)
        &&& ((bishop_reach(0, s1, t) && bishop_reach(0, s2, t)) || t == s1 || t == s2)
            == diagonal_line(s1, s2, t)
    }
    &&& !rook_reach(0, s1, s2) ==> !straight_between(s1, s2, t) && !straight_line(s1, s2, t)
    &&& !bishop_reach(0, s1, s2) ==> !diagonal_between(s1, s2, t) && !diagonal_line(s1, s2, t)
}

/// The whole line through two squares of a rank, file or diagonal; nothing for
/// other squares.
pub fn line(s1: Square, s2: Square) -> (bb: u64)
    requires
        s1 < 64,
        s2 < 64,
    ensures
        forall|t: int|
            0 <= t < 64 ==> #[trigger] member(bb, t) == (straight_line(s1 as int, s2 as int, t)
                || diagonal_line(s1 as int, s2 as int, t)),
{
    broadcast use group_bits;

    let a: u64 = bit(s1);
    let b: u64 = bit(s2);
    proof {
        assert forall|t: int| on_board(t) implies #[trigger] lines_known(s1 as int, s2 as int, t) by {
            not_aligned(s1 as int, s2 as int, t);
            if rook_reach(0, s1 as int, s2 as int) {
                straight_facts(s1 as int, s2 as int, t);
            }
            if bishop_reach(0, s1 as int, s2 as int) {
                diagonal_facts(s1 as int, s2 as int, t);
            }
        }
    }
    let bb: u64 = if contains(rook_attacks(s1, 0), s2) {
        (rook_attacks(s1, 0) & rook_attacks(s2, 0)) | a | b
    } else if contains(bishop_attacks(s1, 0), s2) {
        (bishop_attacks(s1, 0) & bishop_attacks(s2, 0)) | a | b
    } else {
        0
    };
    proof {
        assert forall|t: int| 0 <= t < 64 implies #[trigger] member(bb, t) == (straight_line(
            s1 as int,
            s2 as int,
            t,
        ) || diagonal_line(s1 as int, s2 as int, t)) by {
            assert(lines_known(s1 as int, s2 as int, t));
        }
    }
    bb
}

} // verus!
