//! What the evaluation says of material and of squares.

use crate::attacks::{attack_set, piece_attacks};
use crate::bitboard::{group_bits, member, squares, squares_facts};
use crate::board::{codes_bounded, Position};
use crate::eval::{
    bishop_pair, end_score, end_sum, end_term, evaluation, file_is_free, middle_score, middle_sum,
    middle_term, mobility, passed, phase, phase_sum, seen_from,
};
use crate::magic::bishop_reach;
use crate::num::tdiv;
use crate::pst::{end_king_bonus, middle_bonus};
use crate::rules::attack_set_exists;
use crate::types::{file, mirrored, on_board, rank, Color, PieceType};
use vstd::prelude::*;

verus! {

// ---- One piece ----
/// How much a square can add to a piece, or take off it.
pub proof fn squares_move_worth_little(s: int)
    requires
        on_board(s),
    ensures
        -20 <= middle_bonus(0, s) <= 50,
        -50 <= middle_bonus(1, s) <= 20,
        -20 <= middle_bonus(2, s) <= 10,
        -5 <= middle_bonus(3, s) <= 10,
        -20 <= middle_bonus(4, s) <= 5,
        -50 <= middle_bonus(5, s) <= 30,
        -50 <= end_king_bonus(s) <= 40,
{
    reveal(middle_bonus);
    reveal(end_king_bonus);
}

/// A list of different squares that all stand among others is no longer than these.
proof fn no_more_than(l: Seq<int>, c: Seq<int>)
    requires
        forall|i: int, j: int| 0 <= i < j < l.len() ==> l[i] < l[j],
        forall|i: int| 0 <= i < l.len() ==> c.contains(#[trigger] l[i]),
    ensures
        l.len() <= c.len(),
{
    assert(l.no_duplicates());
    l.unique_seq_to_set();
    c.lemma_cardinality_of_set();
    assert forall|x: int| l.to_set().contains(x) implies c.to_set().contains(x) by {
        let i = choose|i: int| 0 <= i < l.len() && l[i] == x;
        assert(c.contains(l[i]));
    }
    vstd::set_lib::lemma_len_subset(l.to_set(), c.to_set());
}

/// A knight moves to eight squares at most, a bishop to no more than lie on its two
/// diagonals.
pub proof fn minor_pieces_reach_few(p: Position, c: Color, s: int)
    requires
        on_board(s),
    ensures
        0 <= mobility(p, c, PieceType::Knight, s) <= 8,
        0 <= mobility(p, c, PieceType::Bishop, s) <= 16,
{
    broadcast use group_bits;

    let occ = p.colors@[0] | p.colors@[1];
    let own = p.colors@[c.num()];
    attack_set_exists(c, PieceType::Knight, occ, s);
    attack_set_exists(c, PieceType::Bishop, occ, s);
    let a = attack_set(c, PieceType::Knight, occ, s) & !own;
    let b = attack_set(c, PieceType::Bishop, occ, s) & !own;
    squares_facts(a);
    squares_facts(b);
    let x = seq![s + 17, s + 15, s + 10, s + 6, s - 6, s - 10, s - 15, s - 17];
    assert forall|i: int| 0 <= i < squares(a).len() implies x.contains(#[trigger] squares(a)[i]) by {
        let t = squares(a)[i];
        assert(member(attack_set(c, PieceType::Knight, occ, s), t));
        assert(piece_attacks(c, PieceType::Knight, occ, s, t));
        assert(x[0] == t || x[1] == t || x[2] == t || x[3] == t || x[4] == t || x[5] == t || x[6]
            == t || x[7] == t);
    }
    no_more_than(squares(a), x);
    let d = file(s) - rank(s);
    let e = file(s) + rank(s);
    let y = Seq::new(
        16,
        |k: int|
            if k < 8 {
                8 * k + k + d
            } else {
                8 * (k - 8) + e - (k - 8)
            },
    );
    assert forall|i: int| 0 <= i < squares(b).len() implies y.contains(#[trigger] squares(b)[i]) by {
        let t = squares(b)[i];
        assert(member(attack_set(c, PieceType::Bishop, occ, s), t));
        assert(bishop_reach(occ, s, t));
        let r = rank(t);
        assert(t == 8 * r + file(t));
        if file(t) - r == d {
            assert(y[r] == t);
        } else {
            assert(file(t) + r == e);
            assert(y[8 + r] == t);
        }
    }
    no_more_than(squares(b), y);
}

/// What one piece counts, wherever it stands: a pawn about one, a knight and a bishop
/// about three, a rook five and a queen ten times as much, in the middlegame and in the
/// endgame alike. A king counts by its square alone.
pub proof fn pieces_have_their_worth(p: Position, c: Color, s: int)
    requires
        on_board(s),
    ensures
        80 <= middle_term(p, c, 0, s) <= 193 && 110 <= end_term(p, c, 0, s) <= 275,
        254 <= middle_term(p, c, 1, s) <= 356 && 269 <= end_term(p, c, 1, s) <= 336,
        285 <= middle_term(p, c, 2, s) <= 395 && 285 <= end_term(p, c, 2, s) <= 380,
        495 <= middle_term(p, c, 3, s) <= 550 && 548 <= end_term(p, c, 3, s) <= 575,
        980 <= middle_term(p, c, 4, s) <= 1005 && 1040 <= end_term(p, c, 4, s) <= 1052,
        -50 <= middle_term(p, c, 5, s) <= 30 && -50 <= end_term(p, c, 5, s) <= 40,
{
    let seen = seen_from(c, s);
    squares_move_worth_little(seen);
    minor_pieces_reach_few(p, c, s);
}

/// The order of the pieces: on whatever squares they stand, a knight and a bishop count
/// more than a pawn, a rook more than those, and a queen more than a rook and a minor
/// piece.
pub proof fn pieces_have_their_order(p: Position, q: Position, c: Color, d: Color, s: int, t: int)
    requires
        on_board(s),
        on_board(t),
    ensures
        middle_term(p, c, 1, s) > middle_term(q, d, 0, t) + 50,
        middle_term(p, c, 2, s) > middle_term(q, d, 0, t) + 80,
        middle_term(p, c, 3, s) > middle_term(q, d, 1, t) + 100,
        middle_term(p, c, 3, s) >= middle_term(q, d, 2, t) + 100,
        middle_term(p, c, 4, s) > middle_term(q, d, 3, t) + 400,
        end_term(p, c, 2, s) > end_term(q, d, 0, t),
        end_term(p, c, 3, s) > end_term(q, d, 1, t) + 200,
        end_term(p, c, 3, s) > end_term(q, d, 2, t) + 150,
        end_term(p, c, 4, s) > end_term(q, d, 3, t) + 450,
{
    pieces_have_their_worth(p, c, s);
    pieces_have_their_worth(q, d, t);
}

/// A free file is good for a rook: 40 points in the middlegame where no pawn stands on
/// it, 20 where only the other side has one there, and half of that in the endgame.
pub proof fn rooks_like_open_files(p: Position, q: Position, c: Color, s: int)
    requires
        on_board(s),
        !file_is_free(q.mailbox@, c, s),
    ensures
        ({
            let free = file_is_free(p.mailbox@, c, s);
            let open = free && file_is_free(p.mailbox@, c.other(), s);
            let gain = middle_term(p, c, 3, s) - middle_term(q, c, 3, s);
            &&& open ==> gain == 40
            &&& free && !open ==> gain == 20
            &&& !free ==> gain == 0
            &&& 2 * (end_term(p, c, 3, s) - end_term(q, c, 3, s)) == gain
        }),
{
}

/// A passed pawn counts more than one that can be stopped, and the more the further it
/// has come.
pub proof fn passed_pawns_count(p: Position, q: Position, r: Position, c: Color, s: int, t: int)
    requires
        on_board(s),
        on_board(t),
        1 <= rank(seen_from(c, s)) < rank(seen_from(c, t)) <= 6,
        passed(p.mailbox@, c, s),
        passed(r.mailbox@, c, t),
        !passed(q.mailbox@, c, s),
    ensures
        middle_term(p, c, 0, s) > middle_term(q, c, 0, s),
        end_term(p, c, 0, s) >= end_term(q, c, 0, s) + 10,
        end_term(r, c, 0, t) - tdiv(middle_bonus(0, seen_from(c, t)), 2) > end_term(p, c, 0, s)
            - tdiv(middle_bonus(0, seen_from(c, s)), 2),
        rank(seen_from(c, t)) == 6 ==> end_term(r, c, 0, t) >= 275,
{
    reveal(middle_bonus);
}

/// Each square that a minor piece can go to counts: four points for a knight, five for
/// a bishop.
pub proof fn mobility_counts(p: Position, q: Position, c: Color, s: int)
    ensures
        middle_term(p, c, 1, s) - middle_term(q, c, 1, s) == 4 * (mobility(
            p,
            c,
            PieceType::Knight,
            s,
        ) - mobility(q, c, PieceType::Knight, s)),
        end_term(p, c, 2, s) - end_term(q, c, 2, s) == 5 * (mobility(p, c, PieceType::Bishop, s)
            - mobility(q, c, PieceType::Bishop, s)),
{
}

/// Squares have their worth: in the middlegame the king belongs behind its pawns, away
/// from the middle, and in the endgame in the middle; knights belong in the middle and
/// not in a corner; a pawn about to promote is worth more than at home.
pub proof fn squares_have_their_worth(s: int, t: int, u: int)
    requires
        on_board(s),
        on_board(t),
        on_board(u),
        rank(s) <= 1 && (file(s) <= 1 || file(s) >= 6),
        3 <= rank(t) <= 4 && 3 <= file(t) <= 4,
        rank(u) == 6,
    ensures
        middle_bonus(5, s) >= 20,
        middle_bonus(5, t) <= -40,
        end_king_bonus(t) == 40,
        end_king_bonus(s) <= -20,
        middle_bonus(1, t) == 20,
        middle_bonus(1, s) <= -20,
        middle_bonus(0, u) == 50,
        middle_bonus(0, s) <= 10,
        middle_bonus(2, t) == 10,
        middle_bonus(2, s) <= 5,
        middle_bonus(3, u) >= 5,
{
    reveal(middle_bonus);
    reveal(end_king_bonus);
}

/// Both wings are worth the same to every piece but the queen, and no square far from the
/// middle is better for a knight or a bishop than the one next to it towards the middle.
pub proof fn wings_are_worth_the_same(t: int, s: int, u: int)
    requires
        0 <= t < 6,
        t != 4,
        on_board(s),
        on_board(u),
        rank(s) == rank(u),
        file(s) + file(u) == 7,
    ensures
        middle_bonus(t, s) == middle_bonus(t, u),
        end_king_bonus(s) == end_king_bonus(u),
        middle_bonus(4, s) - 5 <= middle_bonus(4, u) <= middle_bonus(4, s) + 5,
        file(s) < 3 && t == 1 ==> middle_bonus(1, s) <= middle_bonus(1, s + 1),
        file(s) == 0 && t == 2 ==> middle_bonus(2, s) < middle_bonus(2, s + 1),
        file(s) < 3 && rank(s) > 1 && t == 5 ==> middle_bonus(5, s) >= middle_bonus(5, s + 1),
        3 <= rank(s) <= 5 && t == 0 ==> middle_bonus(0, s) < middle_bonus(0, s + 8),
{
    reveal(middle_bonus);
    reveal(end_king_bonus);
}

/// A pawn is passed where no pawn of the other side stands before it on its own file or on
/// one beside it.
pub proof fn passed_pawns_meet_no_pawn(m: Seq<u8>, s: int)
    requires
        on_board(s),
    ensures
        passed(m, Color::White, s) <==> forall|t: int|
            on_board(t) && t / 8 > s / 8 && -1 <= t % 8 - s % 8 <= 1 ==> #[trigger] m[t] != 6,
        passed(m, Color::Black, s) <==> forall|t: int|
            on_board(t) && t / 8 < s / 8 && -1 <= t % 8 - s % 8 <= 1 ==> #[trigger] m[t] != 0,
{
}

/// The mobility of a piece is the number of squares that it attacks and on which no piece
/// of its own side stands.
pub proof fn mobility_is_counted(p: Position, c: Color, pt: PieceType, s: int) -> (l: Seq<int>)
    requires
        p.wf_boards(),
        on_board(s),
    ensures
        l.no_duplicates(),
        mobility(p, c, pt, s) == l.len(),
        forall|t: int|
            on_board(t) ==> (#[trigger] l.contains(t) <==> piece_attacks(
                c,
                pt,
                p.colors@[0] | p.colors@[1],
                s,
                t,
            ) && !crate::board::owned(p.mailbox@, t, c)),
{
    broadcast use group_bits;

    let occ = p.colors@[0] | p.colors@[1];
    attack_set_exists(c, pt, occ, s);
    let a = attack_set(c, pt, occ, s) & !p.colors@[c.num()];
    squares_facts(a);
    reveal(crate::board::agree);
    let l = squares(a);
    assert forall|t: int| on_board(t) implies (#[trigger] l.contains(t) <==> piece_attacks(
        c,
        pt,
        occ,
        s,
        t,
    ) && !crate::board::owned(p.mailbox@, t, c)) by {
        assert(member(p.colors@[c.num()], t) == (p.mailbox@[t] < 12 && p.mailbox@[t] as int / 6
            == c.num()));
        assert(p.mailbox@[t] <= 12);
        assert(member(attack_set(c, pt, occ, s), t) == piece_attacks(c, pt, occ, s, t));
        assert(member(a, t) == (member(attack_set(c, pt, occ, s), t) && !member(
            p.colors@[c.num()],
            t,
        )));
        if l.contains(t) {
            let i = choose|i: int| 0 <= i < l.len() && l[i] == t;
            assert(member(a, l[i]));
        }
    }
    l
}

// ---- All pieces ----
/// How many pieces with a code stand on the first `n` squares.
pub open spec fn pieces_of(m: Seq<u8>, code: int, n: int) -> int
    decreases n,
{
    if n <= 0 {
        0
    } else {
        pieces_of(m, code, n - 1) + if m[n - 1] == code {
            1int
        } else {
            0
        }
    }
}

/// How many pieces of a type a side has.
pub open spec fn has_of(p: Position, c: Color, t: int) -> int {
    pieces_of(p.mailbox@, t + 6 * c.num(), 64)
}

proof fn sums_by_count(p: Position, c: Color, n: int)
    requires
        p.wf_boards(),
        0 <= n <= 64,
    ensures
        ({
            let k = 6 * c.num();
            let m = p.mailbox@;
            let a = pieces_of(m, k, n);
            let b = pieces_of(m, k + 1, n);
            let d = pieces_of(m, k + 2, n);
            let e = pieces_of(m, k + 3, n);
            let f = pieces_of(m, k + 4, n);
            let g = pieces_of(m, k + 5, n);
            &&& 80 * a + 254 * b + 285 * d + 495 * e + 980 * f - 50 * g <= middle_sum(p, c, n)
            &&& middle_sum(p, c, n) <= 193 * a + 356 * b + 395 * d + 550 * e + 1005 * f + 30 * g
            &&& 110 * a + 269 * b + 285 * d + 548 * e + 1040 * f - 50 * g <= end_sum(p, c, n)
            &&& end_sum(p, c, n) <= 275 * a + 336 * b + 380 * d + 575 * e + 1052 * f + 40 * g
            &&& 0 <= a && 0 <= b && 0 <= d && 0 <= e && 0 <= f && 0 <= g
        }),
    decreases n,
{
    if n > 0 {
        sums_by_count(p, c, n - 1);
        codes_bounded(p);
        pieces_have_their_worth(p, c, n - 1);
    }
}

proof fn phase_by_count(m: Seq<u8>, n: int)
    requires
        0 <= n <= m.len(),
        forall|s: int| 0 <= s < m.len() ==> #[trigger] m[s] <= 12,
    ensures
        phase_sum(m, n) == pieces_of(m, 1, n) + pieces_of(m, 7, n) + pieces_of(m, 2, n) + pieces_of(
            m,
            8,
            n,
        ) + 2 * (pieces_of(m, 3, n) + pieces_of(m, 9, n)) + 4 * (pieces_of(m, 4, n) + pieces_of(
            m,
            10,
            n,
        )),
    decreases n,
{
    if n > 0 {
        phase_by_count(m, n - 1);
        assert(m[n - 1] <= 12);
    }
}

/// A weighted mean lies between its two values.
proof fn taper_between(a: int, b: int, ph: int, lo: int, hi: int)
    requires
        0 <= ph <= 24,
        lo <= a <= hi,
        lo <= b <= hi,
    ensures
        lo <= tdiv(a * ph + b * (24 - ph), 24) <= hi,
{
    let q = 24 - ph;
    assert(lo * ph <= a * ph <= hi * ph && lo * q <= b * q <= hi * q && lo * ph + lo * q == 24 * lo
        && hi * ph + hi * q == 24 * hi) by (nonlinear_arith)
        requires
            0 <= ph,
            0 <= q,
            ph + q == 24,
            lo <= a <= hi,
            lo <= b <= hi,
    ;
}

/// The evaluation follows the material. Let the side to move have, by type, so many
/// pieces more or fewer than the other side; then, besides 15 points for the move, the
/// evaluation lies within what its own pieces can count at least and the others at
/// most, and the other way round.
pub proof fn evaluation_follows_material(p: Position)
    requires
        p.wf_boards(),
    ensures
        ({
            let us = p.side;
            let them = p.side.other();
            let least = 80 * has_of(p, us, 0) + 254 * has_of(p, us, 1) + 285 * has_of(p, us, 2) + 495
                * has_of(p, us, 3) + 980 * has_of(p, us, 4) - 50 * has_of(p, us, 5);
            let most = 275 * has_of(p, them, 0) + 356 * has_of(p, them, 1) + 395 * has_of(p, them, 2)
                + 575 * has_of(p, them, 3) + 1052 * has_of(p, them, 4) + 40 * has_of(p, them, 5)
                + 50;
            evaluation(p) >= 15 + least - most
        }),
        ({
            let us = p.side.other();
            let them = p.side;
            let least = 80 * has_of(p, us, 0) + 254 * has_of(p, us, 1) + 285 * has_of(p, us, 2) + 495
                * has_of(p, us, 3) + 980 * has_of(p, us, 4) - 50 * has_of(p, us, 5);
            let most = 275 * has_of(p, them, 0) + 356 * has_of(p, them, 1) + 395 * has_of(p, them, 2)
                + 575 * has_of(p, them, 3) + 1052 * has_of(p, them, 4) + 40 * has_of(p, them, 5)
                + 50;
            evaluation(p) <= 15 + most - least
        }),
{
    let us = p.side;
    let them = p.side.other();
    sums_by_count(p, us, 64);
    sums_by_count(p, them, 64);
    let a = middle_score(p, us) - middle_score(p, them);
    let b = end_score(p, us) - end_score(p, them);
    phase_bounds(p);
    let lo = if a < b {
        a
    } else {
        b
    };
    let hi = if a < b {
        b
    } else {
        a
    };
    taper_between(a, b, phase(p), lo, hi);
}

proof fn phase_bounds(p: Position)
    requires
        p.wf_boards(),
    ensures
        0 <= phase(p) <= 24,
{
    codes_bounded(p);
    phase_by_count(p.mailbox@, 64);
    counts_not_negative(p.mailbox@, 64);
}

proof fn counts_not_negative(m: Seq<u8>, n: int)
    ensures
        forall|code: int| #[trigger] pieces_of(m, code, n) >= 0,
    decreases n,
{
    if n > 0 {
        counts_not_negative(m, n - 1);
        assert forall|code: int| #[trigger] pieces_of(m, code, n) >= 0 by {
            assert(pieces_of(m, code, n - 1) >= 0);
        }
    }
}

/// A side that is a piece up against a bare king stands better, whoever is to move: by
/// more than a pawn and a half with a knight or a bishop, by four with a rook and by
/// nine with a queen.
pub proof fn a_piece_up_is_better(p: Position, t: int)
    requires
        p.wf_boards(),
        1 <= t <= 4,
        has_of(p, p.side, 5) == 1,
        has_of(p, p.side.other(), 5) == 1,
        has_of(p, p.side, t) >= 1,
        forall|x: int| 0 <= x < 5 ==> #[trigger] has_of(p, p.side.other(), x) == 0,
    ensures
        evaluation(p) > 150,
        t == 3 ==> evaluation(p) > 400,
        t == 4 ==> evaluation(p) > 890,
{
    let us = p.side;
    let them = p.side.other();
    counts_not_negative(p.mailbox@, 64);
    sums_by_count(p, us, 64);
    sums_by_count(p, them, 64);
    assert(has_of(p, them, 0) == 0 && has_of(p, them, 1) == 0 && has_of(p, them, 2) == 0 && has_of(
        p,
        them,
        3,
    ) == 0 && has_of(p, them, 4) == 0);
    pair_needs_two(p, them);
    let a = middle_score(p, us) - middle_score(p, them);
    let b = end_score(p, us) - end_score(p, them);
    phase_bounds(p);
    let lo = if a < b {
        a
    } else {
        b
    };
    let hi = if a < b {
        b
    } else {
        a
    };
    taper_between(a, b, phase(p), lo, hi);
}

/// A side that has nothing but a piece or two counts these.
proof fn few_pieces_count(p: Position, c: Color, k: int, s: int, t: int, n: int)
    requires
        0 <= n <= 64,
        on_board(k),
        0 <= t < 6,
        0 <= s <= 64,
        s != k,
        p.mailbox@[k] == 5 + 6 * c.num(),
        s < 64 ==> p.mailbox@[s] == t + 6 * c.num(),
        forall|x: int|
            on_board(x) && x != k && x != s ==> !#[trigger] crate::board::owned(p.mailbox@, x, c),
    ensures
        middle_sum(p, c, n) == (if k < n {
            middle_term(p, c, 5, k)
        } else {
            0
        }) + (if s < n {
            middle_term(p, c, t, s)
        } else {
            0
        }),
        end_sum(p, c, n) == (if k < n {
            end_term(p, c, 5, k)
        } else {
            0
        }) + (if s < n {
            end_term(p, c, t, s)
        } else {
            0
        }),
        s == 64 ==> pieces_of(p.mailbox@, 2 + 6 * c.num(), n) == 0,
    decreases n,
{
    if n > 0 {
        few_pieces_count(p, c, k, s, t, n - 1);
        if n - 1 != k && n - 1 != s {
            assert(!crate::board::owned(p.mailbox@, n - 1, c));
        }
    }
}

/// With nothing but the kings, on squares that mirror each other, and one more piece, the
/// side that has it stands better, by what the piece counts at least: with a knight by
/// more than two pawns and a half.
pub proof fn one_piece_up_is_better(p: Position, k: int, s: int, t: int)
    requires
        p.wf_boards(),
        on_board(k),
        on_board(s),
        s != k,
        0 <= t < 5,
        p.mailbox@[k] == 5 + 6 * p.side.num(),
        p.mailbox@[mirrored(k)] == 5 + 6 * p.side.other().num(),
        p.mailbox@[s] == t + 6 * p.side.num(),
        forall|x: int|
            on_board(x) && x != k && x != s && x != mirrored(k) ==> #[trigger] p.mailbox@[x] == 12,
    ensures
        evaluation(p) >= 15 + if t == 0 {
            80int
        } else if t == 1 {
            254int
        } else if t == 2 {
            285int
        } else if t == 3 {
            495int
        } else {
            980int
        },
{
    let us = p.side;
    let them = p.side.other();
    crate::types::mirror_is_involution(k);
    assert forall|x: int| on_board(x) && x != k && x != s implies !#[trigger] crate::board::owned(
        p.mailbox@,
        x,
        us,
    ) by {
        if x != mirrored(k) {
            assert(p.mailbox@[x] == 12);
        }
    }
    assert forall|x: int| on_board(x) && x != mirrored(k) && x != 64 implies !#[trigger] crate::board::owned(
        p.mailbox@,
        x,
        them,
    ) by {
        if x != k && x != s {
            assert(p.mailbox@[x] == 12);
        }
    }
    few_pieces_count(p, us, k, s, t, 64);
    few_pieces_count(p, them, mirrored(k), 64, 0, 64);
    pair_needs_two(p, them);
    pieces_have_their_worth(p, us, s);
    let a = middle_score(p, us) - middle_score(p, them);
    let b = end_score(p, us) - end_score(p, them);
    phase_bounds(p);
    let lo = if a < b {
        a
    } else {
        b
    };
    let hi = if a < b {
        b
    } else {
        a
    };
    taper_between(a, b, phase(p), lo, hi);
}

/// A side without two bishops has no pair of them.
proof fn pair_needs_two(p: Position, c: Color)
    requires
        p.wf_boards(),
        has_of(p, c, 2) == 0,
    ensures
        !bishop_pair(p, c),
{
    broadcast use group_bits;

    let bb = p.pieces@[2] & p.colors@[c.num()];
    squares_facts(bb);
    if squares(bb).len() > 0 {
        let s = squares(bb)[0];
        assert(member(bb, s));
        reveal(crate::board::agree);
        assert(p.mailbox@[s] == 2 + 6 * c.num());
        counted_if_there(p.mailbox@, 2 + 6 * c.num(), 64, s);
    }
}

proof fn counted_if_there(m: Seq<u8>, code: int, n: int, s: int)
    requires
        0 <= s < n,
        m[s] == code,
    ensures
        pieces_of(m, code, n) >= 1,
    decreases n,
{
    if s < n - 1 {
        counted_if_there(m, code, n - 1, s);
    } else {
        counts_not_negative(m, n - 1);
        assert(pieces_of(m, code, n - 1) >= 0);
    }
}

/// The move is worth 15 points, and all else changes its sign with the side to move.
pub proof fn turn_changes_the_sign(p: Position, q: Position)
    requires
        q.pieces == p.pieces,
        q.colors == p.colors,
        q.mailbox == p.mailbox,
        q.side == p.side.other(),
    ensures
        evaluation(p) - 15 == -(evaluation(q) - 15),
{
    sums_by_board(p, q, Color::White, 64);
    sums_by_board(p, q, Color::Black, 64);
    let a = middle_score(p, p.side) - middle_score(p, p.side.other());
    let b = end_score(p, p.side) - end_score(p, p.side.other());
    let ph = phase(p);
    assert((-a) * ph + (-b) * (24 - ph) == -(a * ph + b * (24 - ph))) by (nonlinear_arith);
}

proof fn sums_by_board(p: Position, q: Position, c: Color, n: int)
    requires
        q.pieces == p.pieces,
        q.colors == p.colors,
        q.mailbox == p.mailbox,
    ensures
        middle_sum(p, c, n) == middle_sum(q, c, n),
        end_sum(p, c, n) == end_sum(q, c, n),
    decreases n,
{
    if n > 0 {
        sums_by_board(p, q, c, n - 1);
    }
}

/// How the two scores are weighed: knights and bishops take one twenty-fourth off the
/// weight of the middlegame score, rooks two and queens four.
pub proof fn phase_counts_pieces(p: Position)
    requires
        p.wf_boards(),
    ensures
        ({
            let off = has_of(p, Color::White, 1) + has_of(p, Color::Black, 1) + has_of(
                p,
                Color::White,
                2,
            ) + has_of(p, Color::Black, 2) + 2 * (has_of(p, Color::White, 3) + has_of(
                p,
                Color::Black,
                3,
            )) + 4 * (has_of(p, Color::White, 4) + has_of(p, Color::Black, 4));
            let mg = middle_score(p, p.side) - middle_score(p, p.side.other());
            let eg = end_score(p, p.side) - end_score(p, p.side.other());
            &&& off == 0 ==> evaluation(p) == mg + 15
            &&& off >= 24 ==> evaluation(p) == eg + 15
            &&& 0 <= off <= 24 ==> -24 < 24 * (evaluation(p) - 15) - (mg * (24 - off) + eg * off) < 24
        }),
{
    codes_bounded(p);
    phase_by_count(p.mailbox@, 64);
    counts_not_negative(p.mailbox@, 64);
    let mg = middle_score(p, p.side) - middle_score(p, p.side.other());
    let eg = end_score(p, p.side) - end_score(p, p.side.other());
    let ph = phase(p);
    assert(ph == 24 ==> mg * ph + eg * (24 - ph) == 24 * mg) by (nonlinear_arith);
    assert(ph == 0 ==> mg * ph + eg * (24 - ph) == 24 * eg) by (nonlinear_arith);
}

/// Two bishops count 30 points more than their own terms in the middlegame, and 50 in
/// the endgame.
pub proof fn a_pair_of_bishops_counts(p: Position, c: Color)
    ensures
        bishop_pair(p, c) ==> middle_score(p, c) == middle_sum(p, c, 64) + 30 && end_score(p, c)
            == end_sum(p, c, 64) + 50,
        !bishop_pair(p, c) ==> middle_score(p, c) == middle_sum(p, c, 64) && end_score(p, c)
            == end_sum(p, c, 64),
{
}

} // verus!
