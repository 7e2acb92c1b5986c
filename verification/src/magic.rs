//! Attacks of the sliding pieces.

use crate::bitboard::{bit, bit_of, contains, group_bits, has_bit, has_or, member};
use crate::types::{file, file_of, on_board, rank, rank_of, sq, Square};
use vstd::prelude::*;

verus! {

pub open spec fn abs(x: int) -> int {
    if x < 0 {
        -x
    } else {
        x
    }
}

/// How many king steps lie between two squares.
pub open spec fn distance(s: int, t: int) -> int {
    if abs(file(t) - file(s)) >= abs(rank(t) - rank(s)) {
        abs(file(t) - file(s))
    } else {
        abs(rank(t) - rank(s))
    }
}

/// `k` steps in a direction of -1, 0 or 1.
pub open spec fn steps(d: int, k: int) -> int {
    if d > 0 {
        k
    } else if d < 0 {
        -k
    } else {
        0
    }
}

/// The square `k` steps away from `s`.
pub open spec fn along(s: int, df: int, dr: int, k: int) -> int {
    (rank(s) + steps(dr, k)) * 8 + file(s) + steps(df, k)
}

/// `t` lies on the ray from `s` in this direction.
pub open spec fn on_ray(s: int, t: int, df: int, dr: int) -> bool {
    &&& s != t
    &&& file(t) - file(s) == steps(df, distance(s, t))
    &&& rank(t) - rank(s) == steps(dr, distance(s, t))
}

/// A slider on `s` reaches `t` in this direction: the squares between are empty.
pub open spec fn slides(occ: u64, s: int, t: int, df: int, dr: int) -> bool {
    &&& on_ray(s, t, df, dr)
    &&& forall|k: int| 1 <= k < distance(s, t) ==> !member(occ, #[trigger] along(s, df, dr, k))
}

/// A bishop on `s` attacks `t`.
pub open spec fn bishop_reach(occ: u64, s: int, t: int) -> bool {
    slides(occ, s, t, 1, 1) || slides(occ, s, t, 1, -1) || slides(occ, s, t, -1, 1) || slides(
        occ,
        s,
        t,
        -1,
        -1,
    )
}

/// A rook on `s` attacks `t`.
pub open spec fn rook_reach(occ: u64, s: int, t: int) -> bool {
    slides(occ, s, t, 1, 0) || slides(occ, s, t, -1, 0) || slides(occ, s, t, 0, 1) || slides(
        occ,
        s,
        t,
        0,
        -1,
    )
}

/// A ray seen from its other end.
proof fn slides_reversed(occ: u64, s: int, t: int, df: int, dr: int)
    requires
        on_board(s),
        on_board(t),
        -1 <= df <= 1,
        -1 <= dr <= 1,
        slides(occ, s, t, df, dr),
    ensures
        slides(occ, t, s, -df, -dr),
{
    let n = distance(s, t);
    assert(distance(t, s) == n);
    assert forall|k: int| 1 <= k < n implies !member(occ, #[trigger] along(t, -df, -dr, k)) by {
        assert(along(t, -df, -dr, k) == along(s, df, dr, n - k));
        assert(!member(occ, along(s, df, dr, n - k)));
    }
}

/// Bishop attacks go both ways.
pub proof fn bishop_symmetric(occ: u64, s: int, t: int)
    requires
        on_board(s),
        on_board(t),
    ensures
        bishop_reach(occ, s, t) == bishop_reach(occ, t, s),
{
    bishop_one_way(occ, s, t);
    bishop_one_way(occ, t, s);
}

proof fn bishop_one_way(occ: u64, s: int, t: int)
    requires
        on_board(s),
        on_board(t),
    ensures
        bishop_reach(occ, s, t) ==> bishop_reach(occ, t, s),
{
    if slides(occ, s, t, 1, 1) {
        slides_reversed(occ, s, t, 1, 1);
    }
    if slides(occ, s, t, 1, -1) {
        slides_reversed(occ, s, t, 1, -1);
    }
    if slides(occ, s, t, -1, 1) {
        slides_reversed(occ, s, t, -1, 1);
    }
    if slides(occ, s, t, -1, -1) {
        slides_reversed(occ, s, t, -1, -1);
    }
}

/// Rook attacks go both ways.
pub proof fn rook_symmetric(occ: u64, s: int, t: int)
    requires
        on_board(s),
        on_board(t),
    ensures
        rook_reach(occ, s, t) == rook_reach(occ, t, s),
{
    rook_one_way(occ, s, t);
    rook_one_way(occ, t, s);
}

proof fn rook_one_way(occ: u64, s: int, t: int)
    requires
        on_board(s),
        on_board(t),
    ensures
        rook_reach(occ, s, t) ==> rook_reach(occ, t, s),
{
    if slides(occ, s, t, 1, 0) {
        slides_reversed(occ, s, t, 1, 0);
    }
    if slides(occ, s, t, -1, 0) {
        slides_reversed(occ, s, t, -1, 0);
    }
    if slides(occ, s, t, 0, 1) {
        slides_reversed(occ, s, t, 0, 1);
    }
    if slides(occ, s, t, 0, -1) {
        slides_reversed(occ, s, t, 0, -1);
    }
}

/// The squares that a slider on `square` attacks in one direction.
fn ray_attacks(square: Square, occ: u64, df: i8, dr: i8) -> (bb: u64)
    requires
        square < 64,
        -1 <= df <= 1,
        -1 <= dr <= 1,
        df != 0 || dr != 0,
    ensures
        forall|t: int|
            0 <= t < 64 ==> #[trigger] member(bb, t) == slides(
                occ,
                square as int,
                t,
                df as int,
                dr as int,
            ),
{
    broadcast use group_bits;

    let ghost s = square as int;
    let mut bb: u64 = 0;
    let mut f: i8 = file_of(square) as i8 + df;
    let mut r: i8 = rank_of(square) as i8 + dr;
    let ghost mut k: int = 1;
    while f >= 0 && f < 8 && r >= 0 && r < 8
        invariant_except_break
            forall|t: int|
                0 <= t < 64 ==> #[trigger] member(bb, t) == (slides(
                    occ,
                    s,
                    t,
                    df as int,
                    dr as int,
                ) && distance(s, t) < k),
            forall|j: int|
                1 <= j < k ==> !member(occ, #[trigger] along(s, df as int, dr as int, j)),
        invariant
            0 <= s < 64,
            s == square,
            1 <= k <= 8,
            -1 <= df <= 1,
            -1 <= dr <= 1,
            df != 0 || dr != 0,
            f == file(s) + steps(df as int, k),
            r == rank(s) + steps(dr as int, k),
        ensures
            forall|t: int|
                0 <= t < 64 ==> #[trigger] member(bb, t) == slides(
                    occ,
                    s,
                    t,
                    df as int,
                    dr as int,
                ),
        decreases 8 - k,
    {
        let t: Square = sq(f as u8, r as u8);
        assert(t == along(s, df as int, dr as int, k));
        assert(file(t as int) == f && rank(t as int) == r);
        assert(distance(s, t as int) == k);
        let ghost before = bb;
        bb = bb | bit(t);
        proof {
            assert forall|u: int| 0 <= u < 64 implies #[trigger] member(bb, u) == (slides(
                occ,
                s,
                u,
                df as int,
                dr as int,
            ) && distance(s, u) < k + 1) by {
                has_or(before, bit_of(t as int), u);
                has_bit(t as int, u);
                if slides(occ, s, u, df as int, dr as int) && distance(s, u) == k {
                    assert(u == rank(u) * 8 + file(u));
                    assert(u == t);
                }
            }
        }
        if contains(occ, t) {
            proof {
                assert forall|u: int| 0 <= u < 64 implies #[trigger] member(bb, u) == slides(
                    occ,
                    s,
                    u,
                    df as int,
                    dr as int,
                ) by {
                    if slides(occ, s, u, df as int, dr as int) && distance(s, u) > k {
                        assert(!member(occ, along(s, df as int, dr as int, k)));
                    }
                }
            }
            break;
        }
        f = f + df;
        r = r + dr;
        proof {
            k = k + 1;
        }
        assert forall|u: int| 0 <= u < 64 implies #[trigger] member(bb, u) == (slides(
            occ,
            s,
            u,
            df as int,
            dr as int,
        ) && distance(s, u) < k) by {}
    }
    bb
}

/// A square on the way of a ray.
pub proof fn on_the_way(s: int, t: int, df: int, dr: int, k: int)
    requires
        on_board(s),
        on_board(t),
        -1 <= df <= 1,
        -1 <= dr <= 1,
        on_ray(s, t, df, dr),
        1 <= k < distance(s, t),
    ensures
        on_board(along(s, df, dr, k)),
        on_ray(s, along(s, df, dr, k), df, dr),
        distance(s, along(s, df, dr, k)) == k,
{
    let x = along(s, df, dr, k);
    let f = file(s) + steps(df, k);
    let r = rank(s) + steps(dr, k);
    assert(0 <= f < 8 && 0 <= r < 8);
    assert(x == 8 * r + f);
    assert(file(x) == f && rank(x) == r);
}

/// The end of a ray.
pub proof fn end_of_ray(s: int, u: int, df: int, dr: int)
    requires
        on_board(s),
        on_board(u),
        on_ray(s, u, df, dr),
    ensures
        along(s, df, dr, distance(s, u)) == u,
        distance(s, u) >= 1,
{
}

/// Bishop attacks from `sq` on a board with the occupied squares `occ`.
pub fn bishop_attacks(sq: Square, occ: u64) -> (bb: u64)
    requires
        sq < 64,
    ensures
        forall|t: int|
            0 <= t < 64 ==> #[trigger] member(bb, t) == bishop_reach(occ, sq as int, t),
{
    broadcast use group_bits;

    let a: u64 = ray_attacks(sq, occ, 1, 1);
    let b: u64 = ray_attacks(sq, occ, 1, -1);
    let c: u64 = ray_attacks(sq, occ, -1, 1);
    let d: u64 = ray_attacks(sq, occ, -1, -1);
    a | b | c | d
}

/// Rook attacks from `sq` on a board with the occupied squares `occ`.
pub fn rook_attacks(sq: Square, occ: u64) -> (bb: u64)
    requires
        sq < 64,
    ensures
        forall|t: int| 0 <= t < 64 ==> #[trigger] member(bb, t) == rook_reach(occ, sq as int, t),
{
    broadcast use group_bits;

    let a: u64 = ray_attacks(sq, occ, 1, 0);
    let b: u64 = ray_attacks(sq, occ, -1, 0);
    let c: u64 = ray_attacks(sq, occ, 0, 1);
    let d: u64 = ray_attacks(sq, occ, 0, -1);
    a | b | c | d
}

/// Queen attacks: those of a bishop and those of a rook.
pub fn queen_attacks(sq: Square, occ: u64) -> (bb: u64)
    requires
        sq < 64,
    ensures
        forall|t: int|
            0 <= t < 64 ==> #[trigger] member(bb, t) == (bishop_reach(occ, sq as int, t)
                || rook_reach(occ, sq as int, t)),
{
    broadcast use group_bits;

    bishop_attacks(sq, occ) | rook_attacks(sq, occ)
}

} // verus!
