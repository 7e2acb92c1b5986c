//! What exchanges, moves and results are worth: how the values that guide a search
//! stand to each other.

use crate::attacks::{attack_set, piece_attacks, steps_symmetric};
use crate::bitboard::{empty_set, group_bits, member};
use crate::board::{agree, owned, Position};
use crate::decide::{
    draw_score, faded, far_above, late_count, mate_moves, material_lead, null_reduction, param,
    table_score,
};
use crate::lmr::{base_reduction, reduction, LmrInputs};
use crate::logs::ln_units;
use crate::magic::{bishop_symmetric, rook_symmetric};
use crate::model::{
    answer_index, answers_after, futile, has_officers, history_after, quiet_credited, razored,
    skipped, Mind, Scan,
};
use crate::moves::prunes;
use crate::nodes::Node;
use crate::num::{depth_bonus, gravity, gravity_bounded, mag, tdiv};
use crate::ordering::{
    attackers_of, bounded, capture_index, corrected, correction_of, history_index, killer_score,
    least_type, order_of, recapture, see_occupied, see_value, see_worth, taken_from, Correction,
    OrderingInputs,
};
use crate::rules::attack_set_exists;
use crate::tune::Tunables;
use crate::types::{color_of, on_board, type_of, Color, Move, PieceType};
use vstd::prelude::*;

verus! {

// ---- Exchanges ----
/// The attackers of a square are the pieces that attack it, of both colours.
pub proof fn attackers_attack(p: Position, t: int, occ: u64, s: int)
    requires
        p.wf_boards(),
        on_board(s),
        on_board(t),
    ensures
        member(attackers_of(p, t, occ), s) == (p.mailbox@[s] < 12 && piece_attacks(
            color_of(p.mailbox@[s] as int),
            type_of(p.mailbox@[s] as int),
            occ,
            s,
            t,
        )),
{
    broadcast use group_bits;

    attack_set_exists(Color::Black, PieceType::Pawn, occ, t);
    attack_set_exists(Color::White, PieceType::Pawn, occ, t);
    attack_set_exists(Color::White, PieceType::Knight, occ, t);
    attack_set_exists(Color::White, PieceType::Bishop, occ, t);
    attack_set_exists(Color::White, PieceType::Rook, occ, t);
    attack_set_exists(Color::White, PieceType::King, occ, t);
    steps_symmetric(Color::White, s, t);
    steps_symmetric(Color::Black, s, t);
    bishop_symmetric(occ, s, t);
    rook_symmetric(occ, s, t);
    reveal(agree);
    assert(p.mailbox@[s] <= 12);
    assert(member(p.pieces@[0], s) == (p.mailbox@[s] < 12 && p.mailbox@[s] as int % 6 == 0));
    assert(member(p.pieces@[1], s) == (p.mailbox@[s] < 12 && p.mailbox@[s] as int % 6 == 1));
    assert(member(p.pieces@[2], s) == (p.mailbox@[s] < 12 && p.mailbox@[s] as int % 6 == 2));
    assert(member(p.pieces@[3], s) == (p.mailbox@[s] < 12 && p.mailbox@[s] as int % 6 == 3));
    assert(member(p.pieces@[4], s) == (p.mailbox@[s] < 12 && p.mailbox@[s] as int % 6 == 4));
    assert(member(p.pieces@[5], s) == (p.mailbox@[s] < 12 && p.mailbox@[s] as int % 6 == 5));
    assert(member(p.colors@[0], s) == (p.mailbox@[s] < 12 && p.mailbox@[s] as int / 6 == 0));
    assert(member(p.colors@[1], s) == (p.mailbox@[s] < 12 && p.mailbox@[s] as int / 6 == 1));
    assert(member(attack_set(Color::Black, PieceType::Pawn, occ, t), s) == piece_attacks(
        Color::Black,
        PieceType::Pawn,
        occ,
        t,
        s,
    ));
}

/// Once a piece has left, the pieces behind it attack: bishops and queens behind a pawn, a
/// bishop or a queen, rooks and queens behind a rook or a queen, and none behind a knight.
pub proof fn pieces_behind_are_uncovered(p: Position, t: int, occ: u64, left: int, s: int)
    requires
        p.wf_boards(),
        on_board(s),
        on_board(t),
        0 <= left < 6,
    ensures
        ({
            let pt = type_of(p.mailbox@[s] as int);
            let there = p.mailbox@[s] < 12;
            let diagonal = there && (pt == PieceType::Bishop || pt == PieceType::Queen)
                && crate::magic::bishop_reach(occ, s, t);
            let straight = there && (pt == PieceType::Rook || pt == PieceType::Queen)
                && crate::magic::rook_reach(occ, s, t);
            let u = member(crate::ordering::uncovered(p, t, occ, left), s);
            &&& left == 0 || left == 2 ==> u == diagonal
            &&& left == 3 ==> u == straight
            &&& left == 4 ==> u == (diagonal || straight)
            &&& left == 1 || left == 5 ==> !u
        }),
{
    broadcast use group_bits;

    attack_set_exists(Color::White, PieceType::Bishop, occ, t);
    attack_set_exists(Color::White, PieceType::Rook, occ, t);
    bishop_symmetric(occ, s, t);
    rook_symmetric(occ, s, t);
    reveal(agree);
    assert(p.mailbox@[s] <= 12);
    assert(member(p.pieces@[2], s) == (p.mailbox@[s] < 12 && p.mailbox@[s] as int % 6 == 2));
    assert(member(p.pieces@[3], s) == (p.mailbox@[s] < 12 && p.mailbox@[s] as int % 6 == 3));
    assert(member(p.pieces@[4], s) == (p.mailbox@[s] < 12 && p.mailbox@[s] as int % 6 == 4));
    assert(member(attack_set(Color::White, PieceType::Bishop, occ, t), s) == piece_attacks(
        Color::White,
        PieceType::Bishop,
        occ,
        t,
        s,
    ));
    assert(member(attack_set(Color::White, PieceType::Rook, occ, t), s) == piece_attacks(
        Color::White,
        PieceType::Rook,
        occ,
        t,
        s,
    ));
}

/// A side captures with its least valuable piece first, and a king only where nothing
/// defends: then it wins the piece. A side that would lose by a capture does not capture.
pub proof fn captures_are_answered_well(
    p: Position,
    t: int,
    occ: u64,
    attackers: u64,
    side: Color,
    v: int,
)
    requires
        v >= 0,
    ensures
        ({
            let a = attackers & occ;
            let mine = a & p.colors@[side.num()];
            let theirs = a & p.colors@[side.other().num()];
            let r = recapture(p, t, occ, attackers, side, v);
            &&& 0 <= r <= v
            &&& mine == 0 ==> r == 0
            &&& mine & p.pieces@[0] != 0 ==> r >= v - 100
            &&& mine & p.pieces@[1] != 0 ==> r >= v - 320
            &&& mine & p.pieces@[2] != 0 ==> r >= v - 330
            &&& mine & p.pieces@[3] != 0 ==> r >= v - 500
            &&& mine & p.pieces@[4] != 0 ==> r >= v - 1000
            &&& mine != 0 && mine & p.pieces@[0] == 0 && mine & p.pieces@[1] == 0 && mine
                & p.pieces@[2] == 0 && mine & p.pieces@[3] == 0 && mine & p.pieces@[4] == 0 ==> r
                == if theirs == 0 {
                v
            } else {
                0
            }
        }),
{
    recapture_bounded(p, t, occ, attackers, side, v);
    let a = attackers & occ;
    let mine = a & p.colors@[side.num()];
    let pt = least_type(p, mine);
    assert(mine & p.pieces@[0] != 0 ==> mine != 0) by {
        empties(mine, p.pieces@[0]);
    }
    assert(mine & p.pieces@[1] != 0 ==> mine != 0) by {
        empties(mine, p.pieces@[1]);
    }
    assert(mine & p.pieces@[2] != 0 ==> mine != 0) by {
        empties(mine, p.pieces@[2]);
    }
    assert(mine & p.pieces@[3] != 0 ==> mine != 0) by {
        empties(mine, p.pieces@[3]);
    }
    assert(mine & p.pieces@[4] != 0 ==> mine != 0) by {
        empties(mine, p.pieces@[4]);
    }
    if mine != 0 && pt != 5 {
        taken_from(p, occ, attackers, side, pt);
        let from = crate::bitboard::lowest(mine & p.pieces@[pt]);
        let left = occ ^ crate::bitboard::bit_of(from);
        recapture_bounded(
            p,
            t,
            left,
            a | crate::ordering::uncovered(p, t, left, pt),
            side.other(),
            see_value(pt),
        );
    }
}

proof fn empties(x: u64, y: u64)
    ensures
        x == 0 ==> x & y == 0,
{
    broadcast use group_bits;

    empty_set(x);
    empty_set(x & y);
}

/// An exchange wins no more than what is taken first, and loses no more than what is at
/// stake.
proof fn recapture_bounded(p: Position, t: int, occ: u64, attackers: u64, side: Color, v: int)
    requires
        v >= 0,
    ensures
        0 <= recapture(p, t, occ, attackers, side, v) <= v,
    decreases occ,
{
    let a = attackers & occ;
    let mine = a & p.colors@[side.num()];
    let pt = least_type(p, mine);
    if mine != 0 && pt != 5 {
        taken_from(p, occ, attackers, side, pt);
        let from = crate::bitboard::lowest(mine & p.pieces@[pt]);
        let left = occ ^ crate::bitboard::bit_of(from);
        recapture_bounded(
            p,
            t,
            left,
            a | crate::ordering::uncovered(p, t, left, pt),
            side.other(),
            see_value(pt),
        );
    }
}

/// What an exchange is worth lies between what the move takes, and that without the
/// piece that moves. A pawn counts 100, a knight 320, a bishop 330, a rook 500, a queen
/// 1000.
pub proof fn exchanges_are_bounded(p: Position, mv: Move, taken: int, staked: int)
    requires
        mv.captures(),
        !mv.promotes(),
        mv.flag() != 2 && mv.flag() != 3,
        taken == match OrderingInputs::victim(p, mv) {
            PieceType::Pawn => 100int,
            PieceType::Knight => 320int,
            PieceType::Bishop => 330int,
            PieceType::Rook => 500int,
            PieceType::Queen => 1000int,
            PieceType::King => 20000int,
            PieceType::NoType => 0int,
        },
        staked == match type_of(p.mailbox@[mv.src()] as int) {
            PieceType::Pawn => 100int,
            PieceType::Knight => 320int,
            PieceType::Bishop => 330int,
            PieceType::Rook => 500int,
            PieceType::Queen => 1000int,
            PieceType::King => 20000int,
            PieceType::NoType => 0int,
        },
    ensures
        taken - staked <= see_worth(p, mv) <= taken,
        see_worth(p, mv) >= 0 || taken < staked,
{
    let occ = see_occupied(p, mv);
    recapture_bounded(
        p,
        mv.dst(),
        occ,
        attackers_of(p, mv.dst(), occ),
        p.side.other(),
        staked,
    );
}

/// A piece that nothing defends is won.
pub proof fn undefended_pieces_are_won(p: Position, mv: Move)
    requires
        p.wf_boards(),
        mv.captures(),
        !mv.promotes(),
        mv.flag() != 2 && mv.flag() != 3,
        forall|s: int|
            on_board(s) && #[trigger] owned(p.mailbox@, s, p.side.other()) ==> !piece_attacks(
                p.side.other(),
                type_of(p.mailbox@[s] as int),
                see_occupied(p, mv),
                s,
                mv.dst(),
            ),
    ensures
        see_worth(p, mv) == match OrderingInputs::victim(p, mv) {
            PieceType::Pawn => 100int,
            PieceType::Knight => 320int,
            PieceType::Bishop => 330int,
            PieceType::Rook => 500int,
            PieceType::Queen => 1000int,
            PieceType::King => 20000int,
            PieceType::NoType => 0int,
        },
{
    broadcast use group_bits;

    let occ = see_occupied(p, mv);
    let t = mv.dst();
    crate::types::move_parts_roundtrip(mv);
    let mine = (attackers_of(p, t, occ) & occ) & p.colors@[p.side.other().num()];
    assert forall|s: int| on_board(s) implies !(#[trigger] member(mine, s)) by {
        attackers_attack(p, t, occ, s);
        reveal(agree);
        assert(p.mailbox@[s] <= 12);
        assert(member(p.colors@[p.side.other().num()], s) == (p.mailbox@[s] < 12
            && p.mailbox@[s] as int / 6 == p.side.other().num()));
        if member(mine, s) {
            assert(owned(p.mailbox@, s, p.side.other()));
        }
    }
    empty_set(mine);
}

/// A piece that a pawn defends costs the attacker, less a pawn at most; one that a
/// knight defends costs it less a knight at most.
pub proof fn defended_pieces_cost(p: Position, mv: Move, s: int, taken: int, staked: int)
    requires
        p.wf_boards(),
        mv.captures(),
        !mv.promotes(),
        mv.flag() != 2 && mv.flag() != 3,
        on_board(s),
        owned(p.mailbox@, s, p.side.other()),
        member(see_occupied(p, mv), s),
        type_of(p.mailbox@[s] as int) == PieceType::Pawn || type_of(p.mailbox@[s] as int)
            == PieceType::Knight,
        piece_attacks(
            p.side.other(),
            type_of(p.mailbox@[s] as int),
            see_occupied(p, mv),
            s,
            mv.dst(),
        ),
        taken == match OrderingInputs::victim(p, mv) {
            PieceType::Pawn => 100int,
            PieceType::Knight => 320int,
            PieceType::Bishop => 330int,
            PieceType::Rook => 500int,
            PieceType::Queen => 1000int,
            PieceType::King => 20000int,
            PieceType::NoType => 0int,
        },
        staked == match type_of(p.mailbox@[mv.src()] as int) {
            PieceType::Pawn => 100int,
            PieceType::Knight => 320int,
            PieceType::Bishop => 330int,
            PieceType::Rook => 500int,
            PieceType::Queen => 1000int,
            PieceType::King => 20000int,
            PieceType::NoType => 0int,
        },
    ensures
        type_of(p.mailbox@[s] as int) == PieceType::Pawn ==> see_worth(p, mv) <= taken - staked + 100,
        see_worth(p, mv) <= taken - staked + 320,
{
    broadcast use group_bits;

    let occ = see_occupied(p, mv);
    let t = mv.dst();
    let side = p.side.other();
    crate::types::move_parts_roundtrip(mv);
    attackers_attack(p, t, occ, s);
    reveal(agree);
    assert(p.mailbox@[s] <= 12);
    let at = attackers_of(p, t, occ);
    let a = at & occ;
    let mine = a & p.colors@[side.num()];
    assert(member(p.colors@[side.num()], s));
    assert(member(mine, s));
    empty_set(mine);
    let k = p.mailbox@[s] as int % 6;
    assert(member(p.pieces@[k], s));
    assert(member(mine & p.pieces@[k], s));
    empty_set(mine & p.pieces@[k]);
    let pt = least_type(p, mine);
    assert(pt <= k);
    taken_from(p, occ, at, side, pt);
    let from = crate::bitboard::lowest(mine & p.pieces@[pt]);
    let left = occ ^ crate::bitboard::bit_of(from);
    recapture_bounded(
        p,
        t,
        left,
        a | crate::ordering::uncovered(p, t, left, pt),
        p.side,
        see_value(pt),
    );
}

// ---- The order of moves ----
/// The order in which moves are tried: the table's move, captures that do not lose and
/// promotions, the two killers, the answer to the previous move, other quiet moves, and
/// captures that lose. Of two captures of one kind and history, the one with the larger
/// victim comes first, and then the one with the smaller attacker.
pub proof fn moves_are_ordered(
    p: Position,
    mv: Move,
    tt_move: Move,
    counter: Move,
    killer: Option<i32>,
    history: Seq<i32>,
    cont: Seq<i32>,
    captures: Seq<i32>,
    prev: PieceType,
    prev_to: int,
)
    requires
        bounded(history) && history.len() == 8192,
        bounded(cont) && cont.len() == 147456,
        bounded(captures) && captures.len() == 2304,
        0 <= prev_to < 64,
        type_of(p.mailbox@[mv.src()] as int) != PieceType::NoType,
        mv.captures() ==> OrderingInputs::victim(p, mv) != PieceType::NoType,
        killer matches Some(k) ==> 800_000 <= k <= 900_000,
    ensures
        ({
            let o = order_of(
                p,
                mv,
                tt_move,
                counter,
                killer,
                history,
                cont,
                captures,
                prev,
                prev_to,
            );
            let v = OrderingInputs::victim(p, mv);
            let a = type_of(p.mailbox@[mv.src()] as int);
            let safe = a.num() <= v.num() || v == PieceType::Queen || see_worth(p, mv) >= 0;
            &&& mv == tt_move ==> o > 9_000_000
            &&& mv != tt_move && mv.captures() && safe ==> 4_900_000 < o < 5_100_000
            &&& mv != tt_move && mv.captures() && !safe ==> -1_100_000 < o < -900_000
            &&& mv != tt_move && !mv.captures() && mv.promotes() ==> 4_900_000 < o < 5_100_000
            &&& mv != tt_move && !mv.captures() && !mv.promotes() && killer is Some ==> o
                == killer->0
            &&& mv != tt_move && !mv.captures() && !mv.promotes() && killer is None && mv == counter
                && counter.0 != 0 ==> 600_000 < o < 800_000
            &&& mv != tt_move && !mv.captures() && !mv.promotes() && killer is None && mv != counter
                ==> -32768 <= o <= 32768
            &&& mv != tt_move && mv.captures() && safe && v != PieceType::King ==> o == 5_000_000
                + 10 * v.num() - a.num() + 15 + tdiv(
                captures[capture_index(a, mv.dst(), v)] as int,
                32,
            )
        }),
{
    crate::types::move_parts_roundtrip(mv);
    let a = type_of(p.mailbox@[mv.src()] as int);
    let v = OrderingInputs::victim(p, mv);
    if mv.captures() {
        let k = capture_index(a, mv.dst(), v);
        assert(0 <= k < 2304);
        assert(-16384 <= captures[k] <= 16384);
    }
    let h = history_index(p.side, mv);
    assert(0 <= h < 8192);
    assert(-16384 <= history[h] <= 16384);
    if prev != PieceType::NoType {
        let c = crate::ordering::cont_index(prev, prev_to, a, mv.dst());
        assert(0 <= c < 147456);
        assert(-16384 <= cont[c] <= 16384);
    }
}

// ---- Histories ----
/// A bonus raises a value, a malus lowers it, and neither leads out of the bounds.
pub proof fn bonuses_count(e: int, b: int)
    requires
        -16384 <= e <= 16384,
        -16384 <= b <= 16384,
    ensures
        -16384 <= gravity(e, b) <= 16384,
        b > 0 && e < 16384 ==> gravity(e, b) > e,
        b < 0 && e > -16384 ==> gravity(e, b) < e,
        b >= 0 ==> gravity(e, b) >= e,
        b <= 0 ==> gravity(e, b) <= e,
        e == 0 ==> gravity(e, b) == b,
{
    gravity_bounded(e, b);
    let m = mag(b);
    if e >= 0 {
        assert(e * m >= 0) by (nonlinear_arith)
            requires
                e >= 0,
                m >= 0,
        ;
        if e < 16384 && m > 0 {
            assert(e * m < 16384 * m) by (nonlinear_arith)
                requires
                    e < 16384,
                    m > 0,
            ;
        }
        assert(e * m <= 16384 * m) by (nonlinear_arith)
            requires
                e <= 16384,
                m >= 0,
        ;
    } else {
        let n = -e;
        assert(e * m == -(n * m)) by (nonlinear_arith)
            requires
                n == -e,
        ;
        assert(n * m >= 0) by (nonlinear_arith)
            requires
                n >= 0,
                m >= 0,
        ;
        if n < 16384 && m > 0 {
            assert(n * m < 16384 * m) by (nonlinear_arith)
                requires
                    n < 16384,
                    m > 0,
            ;
        }
        assert(n * m <= 16384 * m) by (nonlinear_arith)
            requires
                n <= 16384,
                m >= 0,
        ;
        if n * m == 0 {
            assert(m == 0) by (nonlinear_arith)
                requires
                    n * m == 0,
                    n > 0,
            ;
        }
    }
    assert(b == 0 ==> e * m == 0) by (nonlinear_arith)
        requires
            b == 0 ==> m == 0,
    ;
    assert(e == 0 ==> e * m == 0) by (nonlinear_arith);
}

/// The deeper the search, the larger the bonus, up to a limit; a bad move gets it with
/// the other sign.
pub proof fn deeper_bonuses_are_larger(d: int, e: int)
    requires
        0 <= d <= e,
    ensures
        0 <= depth_bonus(d, true) <= depth_bonus(e, true) <= 16384,
        depth_bonus(d, false) == -depth_bonus(d, true),
        d > 0 ==> depth_bonus(d, true) > 0,
        d <= 128 ==> depth_bonus(d, true) == d * d,
{
    assert(d * d <= e * e) by (nonlinear_arith)
        requires
            0 <= d <= e,
    ;
    assert(d > 0 ==> d * d > 0) by (nonlinear_arith);
    assert(0 <= d * d) by (nonlinear_arith);
    assert(d <= 128 ==> d * d <= 16384) by (nonlinear_arith)
        requires
            0 <= d,
    ;
}

/// After a cutoff the move that gave it stands higher in the history, and no other move
/// does: a quiet move that was tried before it stands lower.
pub proof fn cutoffs_are_remembered(
    t: Seq<i32>,
    c: Color,
    bonus: int,
    quiets: Seq<Move>,
    mv: Move,
    n: int,
    k: int,
)
    requires
        t.len() == 8192,
        bounded(t),
        0 < bonus <= 16384,
        0 <= n <= quiets.len(),
        0 <= k < 8192,
        forall|j: int|
            0 <= j < n && #[trigger] quiets[j] != mv ==> history_index(c, quiets[j])
                != history_index(c, mv),
    ensures
        ({
            let r = history_after(t, c, bonus, quiets, mv, n);
            &&& r.len() == 8192 && bounded(r)
            &&& k == history_index(c, mv) && t[k] < 16384 ==> r[k] > t[k]
            &&& k != history_index(c, mv) ==> r[k] <= t[k]
            &&& k != history_index(c, mv) && t[k] > -16384 && (exists|j: int|
                0 <= j < n && quiets[j] != mv && k == history_index(c, #[trigger] quiets[j]))
                ==> r[k] < t[k]
            &&& k != history_index(c, mv) && (forall|j: int|
                0 <= j < n ==> k != history_index(c, #[trigger] quiets[j])) ==> r[k] == t[k]
        }),
    decreases n,
{
    crate::types::move_parts_roundtrip(mv);
    let h = history_index(c, mv);
    assert(0 <= h < 8192);
    assert(-16384 <= t[h] <= 16384);
    assert(-16384 <= t[k] <= 16384);
    let w = history_after(t, c, bonus, quiets, mv, n);
    if n == 0 {
        bonuses_count(t[h] as int, bonus);
        assert forall|i: int| 0 <= i < w.len() implies -16384 <= #[trigger] w[i] <= 16384 by {
            assert(-16384 <= t[i] <= 16384);
        }
    } else {
        cutoffs_are_remembered(t, c, bonus, quiets, mv, n - 1, k);
        let r = history_after(t, c, bonus, quiets, mv, n - 1);
        let q = quiets[n - 1];
        crate::types::move_parts_roundtrip(q);
        let i = history_index(c, q);
        assert(0 <= i < 8192);
        assert(-16384 <= r[i] <= 16384);
        assert(-16384 <= r[k] <= 16384);
        bonuses_count(r[i] as int, -bonus);
        assert forall|j: int| 0 <= j < w.len() implies -16384 <= #[trigger] w[j] <= 16384 by {
            assert(-16384 <= r[j] <= 16384);
        }
        if exists|j: int|
            0 <= j < n && quiets[j] != mv && k == history_index(c, #[trigger] quiets[j]) {
            let j = choose|j: int|
                0 <= j < n && quiets[j] != mv && k == history_index(c, #[trigger] quiets[j]);
            if j < n - 1 {
                assert(k == history_index(c, quiets[j]));
            }
        }
    }
}

/// The same holds of the answers to the move before: the move that cut stands higher as an
/// answer, and the quiet moves that were tried before it stand lower. Without a move
/// before nothing is learnt.
pub proof fn answers_are_remembered(
    t: Seq<i32>,
    p: Position,
    prev: (PieceType, int),
    bonus: int,
    quiets: Seq<Move>,
    mv: Move,
    n: int,
    k: int,
)
    requires
        t.len() == 147456,
        bounded(t),
        0 < bonus <= 400,
        0 <= n <= quiets.len(),
        0 <= k < 147456,
        0 <= prev.1 < 64,
        type_of(p.mailbox@[mv.src()] as int) != PieceType::NoType,
        forall|j: int|
            0 <= j < n ==> type_of(p.mailbox@[(#[trigger] quiets[j]).src()] as int)
                != PieceType::NoType,
        forall|j: int|
            0 <= j < n && #[trigger] quiets[j] != mv ==> answer_index(p, prev, quiets[j])
                != answer_index(p, prev, mv),
    ensures
        ({
            let r = answers_after(t, p, prev, bonus, quiets, mv, n);
            &&& prev.0 == PieceType::NoType ==> r == t
            &&& r.len() == 147456 && bounded(r)
            &&& prev.0 != PieceType::NoType && k == answer_index(p, prev, mv) && t[k] < 16384 ==> r[k]
                > t[k]
            &&& k != answer_index(p, prev, mv) ==> r[k] <= t[k]
            &&& prev.0 != PieceType::NoType && k != answer_index(p, prev, mv) && t[k] > -16384 && (
            exists|j: int|
                0 <= j < n && quiets[j] != mv && k == answer_index(p, prev, #[trigger] quiets[j]))
                ==> r[k] < t[k]
        }),
    decreases n,
{
    if prev.0 != PieceType::NoType {
        crate::types::move_parts_roundtrip(mv);
        let h = answer_index(p, prev, mv);
        assert(0 <= h < 147456);
        assert(-16384 <= t[h] <= 16384);
        assert(-16384 <= t[k] <= 16384);
        let w = answers_after(t, p, prev, bonus, quiets, mv, n);
        if n == 0 {
            bonuses_count(t[h] as int, bonus);
            assert forall|i: int| 0 <= i < w.len() implies -16384 <= #[trigger] w[i] <= 16384 by {
                assert(-16384 <= t[i] <= 16384);
            }
        } else {
            answers_are_remembered(t, p, prev, bonus, quiets, mv, n - 1, k);
            let r = answers_after(t, p, prev, bonus, quiets, mv, n - 1);
            let q = quiets[n - 1];
            crate::types::move_parts_roundtrip(q);
            let i = answer_index(p, prev, q);
            assert(0 <= i < 147456);
            assert(-16384 <= r[i] <= 16384);
            assert(-16384 <= r[k] <= 16384);
            bonuses_count(r[i] as int, -bonus);
            assert forall|j: int| 0 <= j < w.len() implies -16384 <= #[trigger] w[j] <= 16384 by {
                assert(-16384 <= r[j] <= 16384);
            }
            if exists|j: int|
                0 <= j < n && quiets[j] != mv && k == answer_index(p, prev, #[trigger] quiets[j]) {
                let j = choose|j: int|
                    0 <= j < n && quiets[j] != mv && k == answer_index(
                        p,
                        prev,
                        #[trigger] quiets[j],
                    );
                if j < n - 1 {
                    assert(k == answer_index(p, prev, quiets[j]));
                }
            }
        }
    }
}

/// A quiet move that cuts a node becomes its first killer, and the one before it the
/// second; it is remembered as the answer to the move that led there.
pub proof fn killers_are_remembered(
    s: Mind,
    p: Position,
    node: Node,
    mv: Move,
    quiets: Seq<Move>,
    prev: (PieceType, int),
    before: (PieceType, int),
    other: Move,
)
    requires
        s.killers.len() == 128,
        node.ply < 128,
        s.counters.len() == 768,
        prev.0 != PieceType::NoType && 0 <= prev.1 < 64,
    ensures
        ({
            let r = quiet_credited(s, p, node, mv, quiets, prev, before);
            &&& killer_score(r.killers, node.ply as int, mv) == Some(900_000i32)
            &&& other != mv && killer_score(s.killers, node.ply as int, other) == Some(900_000i32)
                ==> killer_score(r.killers, node.ply as int, other) == Some(800_000i32)
            &&& other != mv && killer_score(s.killers, node.ply as int, other) is None
                ==> killer_score(r.killers, node.ply as int, other) is None
            &&& r.counters[crate::ordering::counter_index(p.side.other(), prev.0, prev.1)] == mv
            &&& r.table == s.table && r.nodes == s.nodes && r.hashes == s.hashes && r.captures
                == s.captures
        }),
{
}

/// One difference between search and evaluation is its own correction, within the
/// largest one.
pub proof fn first_difference_corrects(diff: int, depth: int)
    requires
        depth >= 1,
        -1_000_000 <= diff <= 1_000_000,
    ensures
        ({
            let c = corrected(Correction { sum: 0, weight: 0 }, diff, depth);
            let e = Correction { sum: c.0 as i64, weight: c.1 as i64 };
            correction_of(e) == if diff > 8192 {
                8192
            } else if diff < -8192 {
                -8192
            } else {
                diff
            }
        }),
{
    let w = if depth < 16 {
        depth
    } else {
        16
    };
    quotients(diff, w);
    quotients(8192, w);
    quotients(-8192, w);
    assert(-16_000_000 <= diff * w <= 16_000_000) by (nonlinear_arith)
        requires
            -1_000_000 <= diff <= 1_000_000,
            0 <= w <= 16,
    ;
}

proof fn quotients(d: int, w: int)
    requires
        w > 0,
    ensures
        tdiv(d * w, w) == d,
{
    if d >= 0 {
        assert(d * w >= 0) by (nonlinear_arith)
            requires
                d >= 0,
                w > 0,
        ;
        vstd::arithmetic::div_mod::lemma_div_by_multiple(d, w);
    } else {
        assert(d * w < 0) by (nonlinear_arith)
            requires
                d < 0,
                w > 0,
        ;
        assert(-(d * w) == (-d) * w) by (nonlinear_arith);
        vstd::arithmetic::div_mod::lemma_div_by_multiple(-d, w);
    }
}

// ---- Scores ----
/// A score fades with the fifty-move clock: it stays at 0, is half at 100 and nothing at
/// 200, and never grows or changes its sign.
pub proof fn scores_fade(score: int, clock: int, later: int)
    requires
        0 <= clock <= later,
    ensures
        faded(score, 0) == score,
        score % 2 == 0 ==> faded(score, 100) == score / 2,
        faded(score, 200) == 0,
        score >= 0 ==> 0 <= faded(score, later) <= faded(score, clock) <= score,
        score <= 0 ==> score <= faded(score, clock) <= faded(score, later) <= 0,
{
    let n = mag(score);
    let a = if clock > 200 {
        0
    } else {
        200 - clock
    };
    let b = if later > 200 {
        0
    } else {
        200 - later
    };
    fades(n, a, b);
    assert(score < 0 ==> score * a == -(n * a) && score * b == -(n * b)) by (nonlinear_arith)
        requires
            score < 0 ==> n == -score,
    ;
    assert(score * 200 == 200 * score) by (nonlinear_arith);
    assert(score * 100 == 100 * score) by (nonlinear_arith);
    assert(score * 0 == 0) by (nonlinear_arith);
}

proof fn fades(n: int, a: int, b: int)
    requires
        n >= 0,
        0 <= b <= a <= 200,
    ensures
        0 <= n * b / 200 <= n * a / 200 <= n,
        0 <= n * b <= n * a,
{
    assert(0 <= n * b <= n * a <= n * 200) by (nonlinear_arith)
        requires
            n >= 0,
            0 <= b <= a <= 200,
    ;
}

/// A mate in n moves has the score 29000 less the plies to it, and being mated in n the
/// same with the other sign.
pub proof fn mates_are_counted(n: int)
    requires
        1 <= n <= 64,
    ensures
        mate_moves(29000 - (2 * n - 1)) == n,
        mate_moves(-29000 + 2 * n) == -n,
{
}

/// The closer a win of the tables is, the better, and a loss the other way round; neither
/// is as good or bad as a mate within the plies of a line.
pub proof fn table_results_are_scored(ply: int)
    requires
        0 <= ply < 128,
    ensures
        table_score(1, ply) == 28872 - ply,
        table_score(-1, ply) == -28872 + ply,
        table_score(0, ply) == 0,
        table_score(1, ply + 1) < table_score(1, ply) < 29000 - 127,
        table_score(-1, ply + 1) > table_score(-1, ply) > -29000 + 127,
{
}

/// A draw is a little bad for the side with much more material, and a little good for
/// the other.
pub proof fn draws_are_weighed(p: Position, c: spec_fn(int) -> int)
    requires
        forall|t: int|
            0 <= t < 6 ==> #[trigger] c(t) == crate::decide::count_of(p, t, p.side)
                - crate::decide::count_of(p, t, p.side.other()),
    ensures
        ({
            let lead = 100 * c(0) + 320 * c(1) + 330 * c(2) + 500 * c(3) + 900 * c(4);
            draw_score(p) == if lead > 200 {
                -10int
            } else if lead < -200 {
                10int
            } else {
                0int
            }
        }),
{
    reveal_with_fuel(material_lead, 7);
    assert(c(0) == crate::decide::count_of(p, 0, p.side) - crate::decide::count_of(
        p,
        0,
        p.side.other(),
    ));
    assert(c(1) == crate::decide::count_of(p, 1, p.side) - crate::decide::count_of(
        p,
        1,
        p.side.other(),
    ));
    assert(c(2) == crate::decide::count_of(p, 2, p.side) - crate::decide::count_of(
        p,
        2,
        p.side.other(),
    ));
    assert(c(3) == crate::decide::count_of(p, 3, p.side) - crate::decide::count_of(
        p,
        3,
        p.side.other(),
    ));
    assert(c(4) == crate::decide::count_of(p, 4, p.side) - crate::decide::count_of(
        p,
        4,
        p.side.other(),
    ));
}

// ---- Reductions ----
/// The logarithms rise, and that of a product with two or three is the sum, within the
/// rounding. That of two is the natural one.
pub proof fn logarithms_add_up(n: int)
    requires
        1 <= n < 128,
    ensures
        ln_units(1) == 0,
        ln_units(2) == 186065279,
        n < 127 ==> ln_units(n) < ln_units(n + 1),
        2 * n < 128 ==> ln_units(n) + ln_units(2) - 2 <= ln_units(2 * n) <= ln_units(n) + ln_units(2)
            + 2,
        3 * n < 128 ==> ln_units(n) + ln_units(3) - 2 <= ln_units(3 * n) <= ln_units(n) + ln_units(3)
            + 2,
{
    reveal(ln_units);
}

/// The later a move and the deeper the search, the larger its reduction, and the larger
/// the divisor the smaller.
pub proof fn late_moves_are_reduced_more(d: int, m: int, e: int, n: int, divisor: int)
    requires
        0 <= d <= e < 128,
        0 <= m <= n < 128,
        divisor > 0,
    ensures
        0 <= base_reduction(d, m, divisor) <= base_reduction(e, n, divisor),
        base_reduction(1, n, divisor) == 0,
        base_reduction(e, 1, divisor) == 0,
{
    logs_rise(d, e);
    logs_rise(m, n);
    let a = ln_units(d);
    let b = ln_units(m);
    let x = ln_units(e);
    let y = ln_units(n);
    let q = divisor * 0x100_0000_0000_0000;
    assert(q > 0);
    assert(0 <= a * b <= x * y) by (nonlinear_arith)
        requires
            0 <= a <= x,
            0 <= b <= y,
    ;
    vstd::arithmetic::div_mod::lemma_div_is_ordered(a * b * 100, x * y * 100, q);
    vstd::arithmetic::div_mod::lemma_div_is_ordered(0, a * b * 100, q);
    vstd::arithmetic::div_mod::lemma_div_basics(q);
    assert(ln_units(1) == 0) by {
        reveal(ln_units);
    }
    assert(0 * y == 0) by (nonlinear_arith);
    assert(x * 0 == 0) by (nonlinear_arith);
    if e > 0 && n > 0 {
        assert(ln_units(1) * ln_units(n) == 0);
        assert(ln_units(e) * ln_units(1) == 0);
    }
    vstd::arithmetic::div_mod::lemma_div_is_ordered(0, x * y * 100, q);
}

proof fn logs_rise(m: int, n: int)
    requires
        0 <= m <= n < 128,
    ensures
        0 <= ln_units(m) <= ln_units(n),
    decreases n - m,
{
    if m < n {
        logs_rise(m, n - 1);
        if n > 1 {
            logarithms_add_up(n - 1);
        } else {
            assert(0 <= ln_units(0) <= ln_units(1)) by {
                reveal(ln_units);
            }
        }
    } else {
        assert(0 <= ln_units(m)) by {
            reveal(ln_units);
        }
    }
}

/// How the reduction of a move depends on what is known of it: the principal variation
/// and a check take a ply off, a node that does not improve or is expected to be cut adds
/// one, and a good history takes off up to two plies and a bad one adds them. It leaves a
/// depth of two at least, and is not negative.
pub proof fn reductions_depend(t: Seq<i32>, div: int, x: LmrInputs)
    requires
        x.depth >= 2,
        div > 0,
        t.len() == 16384,
        0 <= t[(if x.depth < 127 {
            x.depth as int
        } else {
            127
        }) * 128 + if x.moves_searched < 127 {
            x.moves_searched as int
        } else {
            127
        }] <= 1000,
    ensures
        0 <= reduction(t, div, x) <= x.depth - 2,
        ({
            let b = t[(if x.depth < 127 {
                x.depth as int
            } else {
                127
            }) * 128 + if x.moves_searched < 127 {
                x.moves_searched as int
            } else {
                127
            }] as int;
            let plain = LmrInputs {
                on_pv: false,
                improving: true,
                cut_node: false,
                gives_check: false,
                hist_score: 0,
                static_eval: 0,
                alpha: 0,
                ..x
            };
            b + 4 <= x.depth - 2 ==> {
                &&& reduction(t, div, plain) == b
                &&& b >= 1 ==> reduction(t, div, LmrInputs { on_pv: true, ..plain }) == b - 1
                &&& b >= 1 ==> reduction(t, div, LmrInputs { gives_check: true, ..plain }) == b - 1
                &&& reduction(t, div, LmrInputs { improving: false, ..plain }) == b + 1
                &&& reduction(t, div, LmrInputs { cut_node: true, ..plain }) == b + 1
                &&& reduction(t, div, LmrInputs { static_eval: 150, ..plain }) == b + 1
                &&& reduction(t, div, LmrInputs { static_eval: 149, ..plain }) == b
                &&& div < 1_000_000 && b >= 2 ==> reduction(
                    t,
                    div,
                    LmrInputs { hist_score: (2 * div) as i32, ..plain },
                ) == b - 2
                &&& div < 1_000_000 ==> reduction(
                    t,
                    div,
                    LmrInputs { hist_score: (-2 * div) as i32, ..plain },
                ) == b + 2
            }
        }),
{
    quotients(2, div);
    quotients(-2, div);
    quotients(0, div);
}

/// The more a position stands above beta and the deeper it is searched, the shallower the
/// search after a passed turn; and the deeper, the more moves are tried before the quiet
/// ones are left out, and the more so where things improve.
pub proof fn depth_sets_the_margins(t: Tunables, d: int, e: int, v: int, w: int, beta: int)
    requires
        t.in_range(),
        1 <= d <= e,
        beta <= v <= w,
    ensures
        null_reduction(t, d, v, beta, true) <= null_reduction(t, e, w, beta, true),
        null_reduction(t, d, v, beta, false) == null_reduction(t, d, v, beta, true) + 1,
        null_reduction(t, d, v, beta, true) >= 1,
        late_count(t, true, d) <= late_count(t, true, e),
        late_count(t, false, d) <= late_count(t, true, d),
        late_count(t, true, d) >= d * d,
{
    let a = param(t, crate::tune::NMP_DEPTH_DIV);
    let b = param(t, crate::tune::NMP_EVAL_DIV);
    vstd::arithmetic::div_mod::lemma_div_is_ordered(d, e, a);
    vstd::arithmetic::div_mod::lemma_div_is_ordered(v - beta, w - beta, b);
    vstd::arithmetic::div_mod::lemma_div_is_ordered(0, d, a);
    vstd::arithmetic::div_mod::lemma_div_is_ordered(0, v - beta, b);
    vstd::arithmetic::div_mod::lemma_div_basics(a);
    vstd::arithmetic::div_mod::lemma_div_basics(b);
    assert(d * d <= e * e) by (nonlinear_arith)
        requires
            1 <= d <= e,
    ;
    assert(0 <= d * d) by (nonlinear_arith);
}

/// What is never pruned: a move at the root, on the principal variation, in check, while
/// being mated, or before another has been searched; and a capture or promotion whose
/// exchange does not lose. A quiet move that is left out stays left out once more have
/// been searched.
pub proof fn pruning_spares(
    t: Tunables,
    p: Position,
    node: Node,
    mv: Move,
    hist: int,
    searched: int,
    best: int,
    late: int,
    futile: bool,
)
    requires
        t.in_range(),
        node.depth >= 1,
    ensures
        node.ply == 0 || node.is_pv || node.in_check || searched <= 0 || best <= -28872 ==> !prunes(
            t,
            p,
            node,
            mv,
            hist,
            searched,
            best,
            late,
            futile,
        ),
        (mv.captures() || mv.promotes()) && see_worth(p, mv) >= 0 ==> !prunes(
            t,
            p,
            node,
            mv,
            hist,
            searched,
            best,
            late,
            futile,
        ),
        prunes(t, p, node, mv, hist, searched, best, late, futile) ==> prunes(
            t,
            p,
            node,
            mv,
            hist,
            searched + 1,
            best,
            late,
            futile,
        ),
        searched < late && !futile && hist >= 0 && see_worth(p, mv) >= 0 ==> !prunes(
            t,
            p,
            node,
            mv,
            hist,
            searched,
            best,
            late,
            futile,
        ),
        node.ply > 0 && !node.is_pv && !node.in_check && searched > 0 && best > -28872
            && !mv.captures() && !mv.promotes() && (searched >= late || futile) ==> prunes(
            t,
            p,
            node,
            mv,
            hist,
            searched,
            best,
            late,
            futile,
        ),
{
    let d = node.depth as int;
    let m = param(t, crate::tune::HIST_PRUNE_MARGIN);
    let c = param(t, crate::tune::SEE_CAP_MUL);
    let q = param(t, crate::tune::SEE_QUIET_MUL);
    assert(t.values@[crate::tune::HIST_PRUNE_MARGIN as int] >= 0);
    assert(t.values@[crate::tune::SEE_CAP_MUL as int] >= 0);
    assert(t.values@[crate::tune::SEE_QUIET_MUL as int] >= 0);
    assert(-m * d <= 0 && -d * c <= 0 && -d * q <= 0) by (nonlinear_arith)
        requires
            m >= 0,
            c >= 0,
            q >= 0,
            d >= 1,
    ;
}

/// No quiet move is given up where the evaluation reaches alpha, and none but in a shallow
/// node; quiescence settles a node only where the evaluation stays below alpha.
pub proof fn margins_are_for_bad_positions(t: Tunables, node: Node)
    requires
        t.in_range(),
        node.depth >= 1,
    ensures
        futile(t, node) ==> node.static_eval < node.alpha && !node.is_pv && !node.in_check
            && node.depth <= 20,
        razored(t, node) ==> node.static_eval < node.alpha && node.depth <= 20,
        far_above(
            t,
            node.improving,
            node.depth as int,
            node.static_eval as int,
            node.beta as int,
        ) ==> node.static_eval > node.beta && -28744 < node.beta < 28744,
{
    let d = node.depth as int;
    let a = param(t, crate::tune::FP_MARGIN_MUL);
    let b = param(t, crate::tune::RAZOR_MARGIN);
    let c = param(t, crate::tune::RFP_MARGIN_IMP);
    let e = param(t, crate::tune::RFP_MARGIN_NIMP);
    assert(t.values@[crate::tune::FP_MARGIN_MUL as int] >= 1);
    assert(t.values@[crate::tune::FP_MARGIN_ADD as int] >= 0);
    assert(t.values@[crate::tune::RAZOR_MARGIN as int] >= 1);
    assert(t.values@[crate::tune::RFP_MARGIN_IMP as int] >= 1);
    assert(t.values@[crate::tune::RFP_MARGIN_NIMP as int] >= 1);
    assert(t.values@[crate::tune::FP_DEPTH as int] <= 20);
    assert(t.values@[crate::tune::RAZOR_DEPTH as int] <= 20);
    assert(d * a >= 1 && b * d >= 1 && c * d >= 1 && e * d >= 1) by (nonlinear_arith)
        requires
            a >= 1,
            b >= 1,
            c >= 1,
            e >= 1,
            d >= 1,
    ;
}

/// A move whose exchange does not lose is not left out: a capture or a promotion never, and
/// a quiet move not while few have been searched for the depth, its history is not bad
/// and the evaluation reaches alpha.
pub proof fn good_moves_are_not_skipped(
    s: Mind,
    p: Position,
    node: Node,
    mv: Move,
    hist: int,
    x: Scan,
)
    requires
        s.tune.in_range(),
        node.excluded == Move(0),
        1 <= node.depth <= 46_000,
        see_worth(p, mv) >= 0,
        mv.captures() || mv.promotes() || (hist >= 0 && 2 * x.searched + 1 < node.depth * node.depth
            && node.static_eval >= node.alpha),
    ensures
        !skipped(s, p, node, mv, hist, x),
{
    let d = node.depth as int;
    let late = late_count(s.tune, node.improving, d);
    pruning_spares(
        s.tune,
        p,
        node,
        mv,
        hist,
        x.searched,
        x.best,
        late,
        futile(s.tune, node),
    );
    margins_are_for_bad_positions(s.tune, node);
    assert(s.tune.values@[crate::tune::LMP_BASE as int] >= 0);
    assert(d * d >= 0) by (nonlinear_arith);
}

/// A side has officers where it has a knight, a bishop, a rook or a queen.
pub proof fn officers_are_pieces(p: Position)
    requires
        p.wf_boards(),
    ensures
        has_officers(p) <==> exists|s: int|
            on_board(s) && #[trigger] owned(p.mailbox@, s, p.side) && 1 <= p.mailbox@[s] as int % 6
                <= 4,
{
    broadcast use group_bits;

    let bb = p.colors@[p.side.num()] & (p.pieces@[1] | p.pieces@[2] | p.pieces@[3] | p.pieces@[4]);
    crate::bitboard::squares_facts(bb);
    reveal(agree);
    if has_officers(p) {
        let s = crate::bitboard::squares(bb)[0];
        assert(member(bb, s));
        assert(owned(p.mailbox@, s, p.side));
    }
    if exists|s: int|
        on_board(s) && #[trigger] owned(p.mailbox@, s, p.side) && 1 <= p.mailbox@[s] as int % 6 <= 4 {
        let s = choose|s: int|
            on_board(s) && #[trigger] owned(p.mailbox@, s, p.side) && 1 <= p.mailbox@[s] as int % 6
                <= 4;
        assert(member(p.colors@[p.side.num()], s));
        assert(member(p.pieces@[p.mailbox@[s] as int % 6], s));
        assert(member(bb, s));
    }
}

} // verus!
