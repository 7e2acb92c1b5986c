//! The rules of the game: which moves the pieces can make, which positions can
//! be played on, and that the generators follow the rules.

use crate::attacks::{
    attack_set, attacked, attacks_from, is_attack_set, pawn_step, piece_attacks, steps_symmetric,
};
use crate::bitboard::{empty_set, group_bits, lowest, lowest_facts, member, rest, rest_facts};
use crate::board::{after, agree, behind, fits, home, made, moved, owned, Position};
use crate::movegen::{
    all_moves, can_castle_long, can_castle_short, capture_moves, captures_from, castling_moves,
    double_pushes, east_hits, ep_moves, for_each, forward, last_rank, moves_from, occupied, own,
    own_pawns, pawn_captures, pawn_moves, piece_captures, piece_moves, promotions_to, single_pushes,
    steps_to, theirs, to_each, west_hits,
};
use crate::types::{
    castling_mask, flip_is_involution, move_of_parts, move_parts_roundtrip, on_board, piece_code,
    piece_code_roundtrip, rank, type_of, Color, Move, PieceType, UndoInfo,
};
use vstd::prelude::*;

verus! {

/// The rank on which pawns of a colour promote.
pub open spec fn promotion_rank(c: Color) -> int {
    match c {
        Color::White => 7,
        Color::Black => 0,
    }
}

/// The rank on which pawns of a colour start.
pub open spec fn pawn_rank(c: Color) -> int {
    match c {
        Color::White => 1,
        Color::Black => 6,
    }
}

/// A piece of this type can go from `f` to `t`, apart from pawns and castling.
/// Of several kings only the one on the lowest square moves.
pub open spec fn officer_goes(p: Position, f: int, t: int) -> bool {
    let ty = type_of(p.mailbox@[f] as int);
    &&& ty != PieceType::Pawn
    &&& ty == PieceType::King ==> f == p.king_square(p.side)
    &&& piece_attacks(p.side, ty, occupied(p), f, t)
}

/// The pieces can make this move, whether or not it leaves the own king attacked.
#[verifier::opaque]
pub open spec fn pseudo_legal(p: Position, mv: Move) -> bool {
    let m = p.mailbox@;
    let us = p.side;
    let f = mv.src();
    let t = mv.dst();
    let pawn = m[f] == piece_code(us, PieceType::Pawn);
    let last = rank(t) == promotion_rank(us);
    if mv.flag() == 0 {
        m[t] == 12 && (pawn && !last && t == f + forward(us) || owned(m, f, us) && officer_goes(
            p,
            f,
            t,
        ))
    } else if mv.flag() == 1 {
        pawn && rank(f) == pawn_rank(us) && t == f + 2 * forward(us) && m[f + forward(us)] == 12
            && m[t] == 12
    } else if mv.flag() == 2 {
        f == home(us) + 4 && t == home(us) + 6 && can_castle_short(p)
    } else if mv.flag() == 3 {
        f == home(us) + 4 && t == home(us) + 2 && can_castle_long(p)
    } else if mv.flag() == 4 {
        owned(m, t, us.other()) && (pawn && !last && pawn_step(us, f, t) || owned(m, f, us)
            && officer_goes(p, f, t))
    } else if mv.flag() == 5 {
        pawn && p.ep_square != 64 && t == p.ep_square && pawn_step(us, f, t)
    } else if mv.flag() >= 12 {
        pawn && last && owned(m, t, us.other()) && pawn_step(us, f, t)
    } else if mv.flag() >= 8 {
        pawn && last && m[t] == 12 && t == f + forward(us)
    } else {
        false
    }
}

// ---- What the lists hold ----
pub(crate) proof fn concat_contains(a: Seq<Move>, b: Seq<Move>, x: Move)
    ensures
        (a + b).contains(x) == (a.contains(x) || b.contains(x)),
{
    let c = a + b;
    if a.contains(x) {
        let i = choose|i: int| 0 <= i < a.len() && a[i] == x;
        assert(c[i] == x);
    }
    if b.contains(x) {
        let i = choose|i: int| 0 <= i < b.len() && b[i] == x;
        assert(c[a.len() + i] == x);
    }
    if c.contains(x) {
        let i = choose|i: int| 0 <= i < c.len() && c[i] == x;
        if i < a.len() {
            assert(a[i] == x);
        } else {
            assert(b[i - a.len()] == x);
        }
    }
}

/// Square `s` of the set gives the move.
pub open spec fn gives(bb: u64, g: spec_fn(int) -> Seq<Move>, mv: Move, s: int) -> bool {
    0 <= s < 64 && member(bb, s) && g(s).contains(mv)
}

/// A list over a set holds what the squares of the set give.
pub(crate) proof fn for_each_contains(bb: u64, g: spec_fn(int) -> Seq<Move>, mv: Move)
    ensures
        for_each(bb, g).contains(mv) == exists|s: int| #[trigger] gives(bb, g, mv, s),
    decreases bb,
{
    if bb == 0 {
        empty_set(bb);
        assert(!for_each(bb, g).contains(mv));
    } else {
        rest_facts(bb);
        lowest_facts(bb);
        for_each_contains(rest(bb), g, mv);
        concat_contains(g(lowest(bb)), for_each(rest(bb), g), mv);
        if g(lowest(bb)).contains(mv) {
            assert(gives(bb, g, mv, lowest(bb)));
        }
        if exists|s: int| #[trigger] gives(rest(bb), g, mv, s) {
            let s = choose|s: int| #[trigger] gives(rest(bb), g, mv, s);
            assert(gives(bb, g, mv, s));
        }
        if exists|s: int| #[trigger] gives(bb, g, mv, s) {
            let s = choose|s: int| #[trigger] gives(bb, g, mv, s);
            if s != lowest(bb) {
                assert(gives(rest(bb), g, mv, s));
            }
        }
    }
}

pub(crate) proof fn single_contains(x: Move, y: Move)
    ensures
        seq![x].contains(y) == (x == y),
{
    assert(seq![x][0] == x);
}

pub(crate) proof fn to_each_contains(from: int, targets: u64, flag: int, mv: Move)
    requires
        on_board(from),
        0 <= flag < 16,
    ensures
        to_each(from, targets, flag).contains(mv) == (mv.src() == from && mv.flag() == flag
            && member(targets, mv.dst())),
{
    let g = |t: int| seq![Move::of(from, t, flag)];
    for_each_contains(targets, g, mv);
    move_parts_roundtrip(mv);
    if exists|s: int| #[trigger] gives(targets, g, mv, s) {
        let s = choose|s: int| #[trigger] gives(targets, g, mv, s);
        single_contains(Move::of(from, s, flag), mv);
        move_of_parts(from, s, flag);
    }
    if mv.src() == from && mv.flag() == flag && member(targets, mv.dst()) {
        single_contains(Move::of(from, mv.dst(), flag), mv);
        assert(gives(targets, g, mv, mv.dst()));
    }
}

pub(crate) proof fn steps_to_contains(targets: u64, delta: int, flag: int, mv: Move)
    requires
        forall|t: int| 0 <= t < 64 && #[trigger] member(targets, t) ==> 0 <= t - delta < 64,
        0 <= flag < 16,
    ensures
        steps_to(targets, delta, flag).contains(mv) == (mv.src() == mv.dst() - delta && mv.flag()
            == flag && member(targets, mv.dst())),
{
    let g = |t: int| seq![Move::of(t - delta, t, flag)];
    for_each_contains(targets, g, mv);
    move_parts_roundtrip(mv);
    if exists|s: int| #[trigger] gives(targets, g, mv, s) {
        let s = choose|s: int| #[trigger] gives(targets, g, mv, s);
        single_contains(Move::of(s - delta, s, flag), mv);
        move_of_parts(s - delta, s, flag);
    }
    if mv.src() == mv.dst() - delta && mv.flag() == flag && member(targets, mv.dst()) {
        single_contains(Move::of(mv.dst() - delta, mv.dst(), flag), mv);
        assert(gives(targets, g, mv, mv.dst()));
    }
}

pub(crate) proof fn promotions_to_contains(targets: u64, delta: int, base: int, mv: Move)
    requires
        forall|t: int| 0 <= t < 64 && #[trigger] member(targets, t) ==> 0 <= t - delta < 64,
        0 <= base <= 12,
    ensures
        promotions_to(targets, delta, base).contains(mv) == (mv.src() == mv.dst() - delta && base
            <= mv.flag() <= base + 3 && member(targets, mv.dst())),
{
    let g = |t: int|
        seq![
            Move::of(t - delta, t, base + 3),
            Move::of(t - delta, t, base + 2),
            Move::of(t - delta, t, base + 1),
            Move::of(t - delta, t, base),
        ];
    assert(promotions_to(targets, delta, base) == for_each(targets, g));
    for_each_contains(targets, g, mv);
    move_parts_roundtrip(mv);
    if exists|s: int| #[trigger] gives(targets, g, mv, s) {
        let s = choose|s: int| #[trigger] gives(targets, g, mv, s);
        let l = g(s);
        let i = choose|i: int| 0 <= i < l.len() && l[i] == mv;
        move_of_parts(s - delta, s, base);
        move_of_parts(s - delta, s, base + 1);
        move_of_parts(s - delta, s, base + 2);
        move_of_parts(s - delta, s, base + 3);
    }
    if mv.src() == mv.dst() - delta && base <= mv.flag() <= base + 3 && member(
        targets,
        mv.dst(),
    ) {
        let l = g(mv.dst());
        assert(l[base + 3 - mv.flag()] == mv);
        assert(gives(targets, g, mv, mv.dst()));
    }
}

/// The bitboards of a position, read off its mailbox.
pub(crate) proof fn board_sets(p: Position)
    requires
        p.wf_boards(),
    ensures
        forall|s: int| 0 <= s < 64 ==> #[trigger] p.mailbox@[s] <= 12,
        forall|s: int|
            0 <= s < 64 ==> #[trigger] member(own_pawns(p), s) == (p.mailbox@[s] == piece_code(
                p.side,
                PieceType::Pawn,
            )),
        forall|s: int|
            0 <= s < 64 ==> #[trigger] member(occupied(p), s) == (p.mailbox@[s] != 12),
        forall|s: int| 0 <= s < 64 ==> #[trigger] member(own(p), s) == owned(p.mailbox@, s, p.side),
        forall|s: int|
            0 <= s < 64 ==> #[trigger] member(theirs(p), s) == owned(
                p.mailbox@,
                s,
                p.side.other(),
            ),
        forall|t: int, s: int|
            0 <= s < 64 && 0 <= t < 6 ==> #[trigger] member(p.pieces@[t], s) == (p.mailbox@[s] < 12
                && type_of(p.mailbox@[s] as int).num() == t),
{
    broadcast use group_bits;

    reveal(agree);
}

pub(crate) proof fn pawn_captures_contains(p: Position, mv: Move)
    requires
        p.wf_boards(),
        p.ep_square <= 64,
    ensures
        pawn_captures(p).contains(mv) == (pseudo_legal(p, mv) && p.mailbox@[mv.src()] == piece_code(
            p.side,
            PieceType::Pawn,
        ) && (mv.flag() == 4 || mv.flag() == 5 || mv.flag() >= 12)),
{
    reveal(pseudo_legal);
    broadcast use group_bits;

    board_sets(p);
    move_parts_roundtrip(mv);
    let pawns = own_pawns(p);
    let w = west_hits(p.side, pawns) & theirs(p);
    let e = east_hits(p.side, pawns) & theirs(p);
    let last = last_rank(p.side);
    let dw = forward(p.side) - 1;
    let de = forward(p.side) + 1;
    steps_to_contains(w & !last, dw, 4, mv);
    promotions_to_contains(w & last, dw, 12, mv);
    steps_to_contains(e & !last, de, 4, mv);
    promotions_to_contains(e & last, de, 12, mv);
    let a = steps_to(w & !last, dw, 4);
    let b = promotions_to(w & last, dw, 12);
    let c = steps_to(e & !last, de, 4);
    let d = promotions_to(e & last, de, 12);
    concat_contains(a, b, mv);
    concat_contains(a + b, c, mv);
    concat_contains(a + b + c, d, mv);
    concat_contains(a + b + c + d, ep_moves(p), mv);
    ep_moves_contains(p, mv);
    let t = mv.dst();
    let f = mv.src();
    assert(member(last, t) == (rank(t) == promotion_rank(p.side)));
    assert(member(w, t) && f == t - dw ==> pawn_step(p.side, f, t) && member(pawns, f));
    assert(member(e, t) && f == t - de ==> pawn_step(p.side, f, t) && member(pawns, f));
    if pawn_step(p.side, f, t) && member(pawns, f) && member(theirs(p), t) {
        assert(f == t - dw || f == t - de);
        assert(f == t - dw ==> member(w, t));
        assert(f == t - de ==> member(e, t));
    }
    assert(p.mailbox@[f] == piece_code(p.side, PieceType::Pawn) ==> type_of(p.mailbox@[f] as int)
        == PieceType::Pawn);
}

pub(crate) proof fn ep_moves_contains(p: Position, mv: Move)
    requires
        p.wf_boards(),
        p.ep_square <= 64,
    ensures
        ep_moves(p).contains(mv) == (mv.flag() == 5 && p.ep_square != 64 && mv.dst() == p.ep_square
            && p.mailbox@[mv.src()] == piece_code(p.side, PieceType::Pawn) && pawn_step(
            p.side,
            mv.src(),
            mv.dst(),
        )),
{
    broadcast use group_bits;

    board_sets(p);
    move_parts_roundtrip(mv);
    if p.ep_square != 64 {
        let ep = p.ep_square as int;
        let c = p.side.other();
        attack_set_exists(c, PieceType::Pawn, 0, ep);
        let a = attack_set(c, PieceType::Pawn, 0, ep);
        let bb = a & own_pawns(p);
        let g = |f: int| seq![Move::of(f, p.ep_square as int, 5)];
        for_each_contains(bb, g, mv);
        steps_symmetric(p.side, mv.src(), ep);
        if exists|s: int| #[trigger] gives(bb, g, mv, s) {
            let s = choose|s: int| #[trigger] gives(bb, g, mv, s);
            single_contains(Move::of(s, ep, 5), mv);
            move_of_parts(s, ep, 5);
            assert(member(a, s));
            steps_symmetric(p.side, s, ep);
        }
        if mv.flag() == 5 && mv.dst() == ep && p.mailbox@[mv.src()] == piece_code(
            p.side,
            PieceType::Pawn,
        ) && pawn_step(p.side, mv.src(), ep) {
            single_contains(Move::of(mv.src(), ep, 5), mv);
            assert(member(a, mv.src()));
            assert(member(bb, mv.src()));
            assert(gives(bb, g, mv, mv.src()));
        }
    } else {
        assert(!ep_moves(p).contains(mv));
    }
}

pub(crate) proof fn pawn_moves_contains(p: Position, mv: Move)
    requires
        p.wf_boards(),
        p.ep_square <= 64,
    ensures
        pawn_moves(p).contains(mv) == (pseudo_legal(p, mv) && p.mailbox@[mv.src()] == piece_code(
            p.side,
            PieceType::Pawn,
        ) && mv.flag() != 2 && mv.flag() != 3),
{
    reveal(pseudo_legal);
    broadcast use group_bits;

    board_sets(p);
    move_parts_roundtrip(mv);
    let pawns = own_pawns(p);
    let occ = occupied(p);
    let single = single_pushes(p.side, pawns, occ);
    let double = double_pushes(p.side, pawns, occ);
    let last = last_rank(p.side);
    let d = forward(p.side);
    promotions_to_contains(single & last, d, 8, mv);
    steps_to_contains(single & !last, d, 0, mv);
    steps_to_contains(double, 2 * d, 1, mv);
    pawn_captures_contains(p, mv);
    let a = promotions_to(single & last, d, 8);
    let b = steps_to(single & !last, d, 0);
    let c = steps_to(double, 2 * d, 1);
    concat_contains(a, b, mv);
    concat_contains(a + b, c, mv);
    concat_contains(a + b + c, pawn_captures(p), mv);
    let t = mv.dst();
    let f = mv.src();
    assert(member(last, t) == (rank(t) == promotion_rank(p.side)));
    assert(f == t - d ==> member(single, t) == (member(pawns, f) && !member(occ, t)));
    assert(f == t - 2 * d ==> member(double, t) == (member(single, t - d) && rank(f) == pawn_rank(
        p.side,
    ) && !member(occ, t)));
    assert(p.mailbox@[f] == piece_code(p.side, PieceType::Pawn) ==> type_of(p.mailbox@[f] as int)
        == PieceType::Pawn);
}

/// Every piece has a set of attacked squares.
pub proof fn attack_set_exists(c: Color, pt: PieceType, occ: u64, s: int)
    requires
        on_board(s),
    ensures
        is_attack_set(attack_set(c, pt, occ, s), c, pt, occ, s),
{
    let f = |t: int| piece_attacks(c, pt, occ, s, t);
    let bb = set_where(f, 64);
    set_where_facts(f, 64);
    assert(is_attack_set(bb, c, pt, occ, s));
}

/// The set of the squares below `n` that satisfy a predicate.
pub open spec fn set_where(f: spec_fn(int) -> bool, n: int) -> u64
    decreases n,
{
    if n <= 0 {
        0
    } else if f(n - 1) {
        set_where(f, n - 1) | crate::bitboard::bit_of(n - 1)
    } else {
        set_where(f, n - 1)
    }
}

proof fn set_where_facts(f: spec_fn(int) -> bool, n: int)
    requires
        0 <= n <= 64,
    ensures
        forall|t: int| 0 <= t < 64 ==> #[trigger] member(set_where(f, n), t) == (t < n && f(t)),
    decreases n,
{
    broadcast use group_bits;

    if n > 0 {
        set_where_facts(f, n - 1);
        let before = set_where(f, n - 1);
        assert forall|t: int| 0 <= t < 64 implies #[trigger] member(set_where(f, n), t) == (t < n
            && f(t)) by {
            crate::bitboard::has_or(before, crate::bitboard::bit_of(n - 1), t);
            crate::bitboard::has_bit(n - 1, t);
            assert(member(before, t) == (t < n - 1 && f(t)));
        }
    } else {
        assert forall|t: int| 0 <= t < 64 implies !#[trigger] member(set_where(f, n), t) by {}
    }
}

pub(crate) proof fn moves_from_contains(p: Position, pt: PieceType, f: int, mv: Move)
    requires
        on_board(f),
        p.wf_boards(),
    ensures
        moves_from(p, pt, f).contains(mv) == (mv.src() == f && piece_attacks(
            p.side,
            pt,
            occupied(p),
            f,
            mv.dst(),
        ) && (mv.flag() == 4 && owned(p.mailbox@, mv.dst(), p.side.other()) || mv.flag() == 0
            && p.mailbox@[mv.dst()] == 12)),
        captures_from(p, pt, f).contains(mv) == (mv.src() == f && piece_attacks(
            p.side,
            pt,
            occupied(p),
            f,
            mv.dst(),
        ) && mv.flag() == 4 && owned(p.mailbox@, mv.dst(), p.side.other())),
{
    broadcast use group_bits;

    board_sets(p);
    move_parts_roundtrip(mv);
    attack_set_exists(p.side, pt, occupied(p), f);
    let a = attack_set(p.side, pt, occupied(p), f);
    to_each_contains(f, a & theirs(p), 4, mv);
    to_each_contains(f, a & !occupied(p), 0, mv);
    concat_contains(to_each(f, a & theirs(p), 4), to_each(f, a & !occupied(p), 0), mv);
    assert(member(a, mv.dst()) == piece_attacks(p.side, pt, occupied(p), f, mv.dst()));
}

pub(crate) proof fn piece_moves_contains(p: Position, pt: PieceType, mv: Move)
    requires
        p.wf_boards(),
        pt != PieceType::NoType,
        pt != PieceType::Pawn,
        pt != PieceType::King,
    ensures
        piece_moves(p, pt).contains(mv) == (pseudo_legal(p, mv) && (mv.flag() == 0 || mv.flag()
            == 4) && owned(p.mailbox@, mv.src(), p.side) && type_of(p.mailbox@[mv.src()] as int)
            == pt),
        piece_captures(p, pt).contains(mv) == (pseudo_legal(p, mv) && mv.flag() == 4 && owned(
            p.mailbox@,
            mv.src(),
            p.side,
        ) && type_of(p.mailbox@[mv.src()] as int) == pt),
{
    reveal(pseudo_legal);
    broadcast use group_bits;

    board_sets(p);
    move_parts_roundtrip(mv);
    let bb = p.pieces@[pt.num()] & own(p);
    let g = |f: int| moves_from(p, pt, f);
    let h = |f: int| captures_from(p, pt, f);
    for_each_contains(bb, g, mv);
    for_each_contains(bb, h, mv);
    moves_from_contains(p, pt, mv.src(), mv);
    let ok = owned(p.mailbox@, mv.src(), p.side) && type_of(p.mailbox@[mv.src()] as int) == pt;
    assert(member(bb, mv.src()) == ok);
    if exists|s: int| #[trigger] gives(bb, g, mv, s) {
        let s = choose|s: int| #[trigger] gives(bb, g, mv, s);
        moves_from_contains(p, pt, s, mv);
    }
    if exists|s: int| #[trigger] gives(bb, h, mv, s) {
        let s = choose|s: int| #[trigger] gives(bb, h, mv, s);
        moves_from_contains(p, pt, s, mv);
    }
    if ok && moves_from(p, pt, mv.src()).contains(mv) {
        assert(gives(bb, g, mv, mv.src()));
    }
    if ok && captures_from(p, pt, mv.src()).contains(mv) {
        assert(gives(bb, h, mv, mv.src()));
    }
    piece_code_roundtrip(p.side, PieceType::Pawn, 0);
}

pub(crate) proof fn king_moves_contains(p: Position, mv: Move)
    requires
        p.wf_boards(),
        p.king_square(p.side) < 64,
    ensures
        moves_from(p, PieceType::King, p.king_square(p.side)).contains(mv) == (pseudo_legal(p, mv)
            && (mv.flag() == 0 || mv.flag() == 4) && owned(p.mailbox@, mv.src(), p.side) && type_of(
            p.mailbox@[mv.src()] as int,
        ) == PieceType::King),
        captures_from(p, PieceType::King, p.king_square(p.side)).contains(mv) == (pseudo_legal(
            p,
            mv,
        ) && mv.flag() == 4 && owned(p.mailbox@, mv.src(), p.side) && type_of(
            p.mailbox@[mv.src()] as int,
        ) == PieceType::King),
{
    reveal(pseudo_legal);
    broadcast use group_bits;

    board_sets(p);
    king_stands(p, p.side);
    move_parts_roundtrip(mv);
    moves_from_contains(p, PieceType::King, p.king_square(p.side), mv);
    piece_code_roundtrip(p.side, PieceType::Pawn, 0);
    piece_code_roundtrip(p.side, PieceType::King, 0);
}

/// On the king's square stands a king.
pub proof fn king_stands(p: Position, c: Color)
    requires
        p.wf_boards(),
        p.king_square(c) < 64,
    ensures
        0 <= p.king_square(c) < 64,
        p.mailbox@[p.king_square(c)] == piece_code(c, PieceType::King),
{
    broadcast use group_bits;

    reveal(agree);
    lowest_facts(p.pieces@[5] & p.colors@[c.num()]);
}

/// A king on the board makes the king's square a square of the board.
pub proof fn king_found(p: Position, c: Color, s: int)
    requires
        p.wf_boards(),
        on_board(s),
        p.mailbox@[s] == piece_code(c, PieceType::King),
    ensures
        0 <= p.king_square(c) <= s,
{
    broadcast use group_bits;

    reveal(agree);
    let k = p.pieces@[5] & p.colors@[c.num()];
    lowest_facts(k);
    assert(member(k, s));
}

pub(crate) proof fn castling_moves_contains(p: Position, mv: Move)
    ensures
        castling_moves(p).contains(mv) == (pseudo_legal(p, mv) && (mv.flag() == 2 || mv.flag()
            == 3)),
{
    reveal(pseudo_legal);
    move_parts_roundtrip(mv);
    let h = home(p.side);
    move_of_parts(h + 4, h + 6, 2);
    move_of_parts(h + 4, h + 2, 3);
    let short: Seq<Move> = if can_castle_short(p) {
        seq![Move::of(h + 4, h + 6, 2)]
    } else {
        Seq::empty()
    };
    let long: Seq<Move> = if can_castle_long(p) {
        seq![Move::of(h + 4, h + 2, 3)]
    } else {
        Seq::empty()
    };
    concat_contains(short, long, mv);
    single_contains(Move::of(h + 4, h + 6, 2), mv);
    single_contains(Move::of(h + 4, h + 2, 3), mv);
}

/// The generator of all moves gives exactly the pseudo-legal moves.
#[verifier::rlimit(30)]
pub proof fn all_moves_are_pseudo_legal(p: Position, mv: Move)
    requires
        p.wf_boards(),
        p.ep_square <= 64,
        p.king_square(p.side) < 64,
    ensures
        all_moves(p).contains(mv) == pseudo_legal(p, mv),
{
    reveal(all_moves);
    reveal(pseudo_legal);
    board_sets(p);
    pawn_moves_contains(p, mv);
    piece_moves_contains(p, PieceType::Knight, mv);
    piece_moves_contains(p, PieceType::Bishop, mv);
    piece_moves_contains(p, PieceType::Rook, mv);
    piece_moves_contains(p, PieceType::Queen, mv);
    king_moves_contains(p, mv);
    castling_moves_contains(p, mv);
    move_parts_roundtrip(mv);
    let a = pawn_moves(p);
    let b = piece_moves(p, PieceType::Knight);
    let c = piece_moves(p, PieceType::Bishop);
    let d = piece_moves(p, PieceType::Rook);
    let e = piece_moves(p, PieceType::Queen);
    let k = moves_from(p, PieceType::King, p.king_square(p.side));
    concat_contains(a, b, mv);
    concat_contains(a + b, c, mv);
    concat_contains(a + b + c, d, mv);
    concat_contains(a + b + c + d, e, mv);
    concat_contains(a + b + c + d + e, k, mv);
    concat_contains(a + b + c + d + e + k, castling_moves(p), mv);
    piece_code_roundtrip(p.side, PieceType::Pawn, 0);
    if owned(p.mailbox@, mv.src(), p.side) {
        piece_code_roundtrip(p.side, PieceType::Pawn, p.mailbox@[mv.src()] as int);
    }
}

/// The generator of captures gives exactly the pseudo-legal moves that capture.
#[verifier::rlimit(30)]
pub proof fn capture_moves_are_the_captures(p: Position, mv: Move)
    requires
        p.wf_boards(),
        p.ep_square <= 64,
        p.king_square(p.side) < 64,
    ensures
        capture_moves(p).contains(mv) == (pseudo_legal(p, mv) && mv.captures()),
{
    reveal(capture_moves);
    reveal(pseudo_legal);
    board_sets(p);
    pawn_captures_contains(p, mv);
    piece_moves_contains(p, PieceType::Knight, mv);
    piece_moves_contains(p, PieceType::Bishop, mv);
    piece_moves_contains(p, PieceType::Rook, mv);
    piece_moves_contains(p, PieceType::Queen, mv);
    king_moves_contains(p, mv);
    move_parts_roundtrip(mv);
    let a = pawn_captures(p);
    let b = piece_captures(p, PieceType::Knight);
    let c = piece_captures(p, PieceType::Bishop);
    let d = piece_captures(p, PieceType::Rook);
    let e = piece_captures(p, PieceType::Queen);
    let k = captures_from(p, PieceType::King, p.king_square(p.side));
    concat_contains(a, b, mv);
    concat_contains(a + b, c, mv);
    concat_contains(a + b + c, d, mv);
    concat_contains(a + b + c + d, e, mv);
    concat_contains(a + b + c + d + e, k, mv);
    piece_code_roundtrip(p.side, PieceType::Pawn, 0);
    if owned(p.mailbox@, mv.src(), p.side) {
        piece_code_roundtrip(p.side, PieceType::Pawn, p.mailbox@[mv.src()] as int);
    }
}

// ---- Positions that can be played on ----
/// Castling rights are backed by a king and a rook on their home squares.
pub open spec fn rights_ok(p: Position) -> bool {
    let m = p.mailbox@;
    &&& p.castling.holds(1) ==> m[4] == 5 && m[7] == 3
    &&& p.castling.holds(2) ==> m[4] == 5 && m[0] == 3
    &&& p.castling.holds(4) ==> m[60] == 11 && m[63] == 9
    &&& p.castling.holds(8) ==> m[60] == 11 && m[56] == 9
}

/// The en passant square is empty and the pawn that jumped stands before it.
pub open spec fn ep_ok(p: Position) -> bool {
    p.ep_square != 64 ==> {
        &&& p.mailbox@[p.ep_square as int] == 12
        &&& on_board(behind(p.side, p.ep_square as int))
        &&& p.mailbox@[behind(p.side, p.ep_square as int)] == piece_code(
            p.side.other(),
            PieceType::Pawn,
        )
    }
}

/// Both sides have a king.
pub open spec fn has_kings(p: Position) -> bool {
    p.king_square(Color::White) < 64 && p.king_square(Color::Black) < 64
}

/// The side to move attacks the king of the side that moved last.
pub open spec fn exposed(p: Position) -> bool {
    attacked(p.pieces@, p.colors@, p.king_square(p.side.other()), p.side)
}

/// The position is consistent apart from the safety of the king that moved last.
#[verifier::opaque]
pub open spec fn sound(p: Position) -> bool {
    &&& p.wf()
    &&& rights_ok(p)
    &&& ep_ok(p)
    &&& has_kings(p)
}

/// A position that can be played on.
pub open spec fn playable(p: Position) -> bool {
    sound(p) && !exposed(p)
}

/// A pseudo-legal move is legal if it does not leave the own king attacked.
pub open spec fn safe(p: Position, mv: Move) -> bool {
    !exposed(after(p, mv))
}

pub open spec fn legal(p: Position, mv: Move) -> bool {
    pseudo_legal(p, mv) && safe(p, mv)
}

/// What a sound position has.
pub proof fn sound_facts(p: Position)
    requires
        sound(p),
    ensures
        p.wf(),
        p.wf_boards(),
        p.ep_square <= 64,
        rights_ok(p),
        ep_ok(p),
        has_kings(p),
        p.king_square(p.side) < 64,
        p.king_square(p.side.other()) < 64,
{
    reveal(sound);
}

/// In a sound position a pseudo-legal move can be carried out.
pub proof fn pseudo_legal_fits(p: Position, mv: Move)
    requires
        sound(p),
        pseudo_legal(p, mv),
    ensures
        fits(p.mailbox@, p.side, mv),
{
    reveal(fits);
    reveal(sound);
    reveal(pseudo_legal);
    board_sets(p);
    move_parts_roundtrip(mv);
    flip_is_involution(p.side);
}

/// A move that captures attacks the square on which it captures.
proof fn captures_attack(p: Position, mv: Move)
    requires
        sound(p),
        pseudo_legal(p, mv),
        owned(p.mailbox@, mv.dst(), p.side.other()),
    ensures
        attacked(p.pieces@, p.colors@, mv.dst(), p.side),
{
    reveal(attacked);
    reveal(sound);
    reveal(pseudo_legal);
    board_sets(p);
    move_parts_roundtrip(mv);
    let f = mv.src();
    let t = mv.dst();
    flip_is_involution(p.side);
    assert(mv.flag() == 4 || mv.flag() >= 12);
    piece_code_roundtrip(p.side, PieceType::Pawn, p.mailbox@[f] as int);
    let ty = type_of(p.mailbox@[f] as int);
    assert(member(own(p), f));
    assert(member(p.pieces@[ty.num()], f));
    assert(attacks_from(p.pieces@, p.colors@[p.side.num()], p.side, occupied(p), f, t));
}

proof fn rights_bits(r: u8, a: u8, b: u8, x: u8)
    by (bit_vector)
    ensures
        (r & (a & b)) & x != 0 ==> r & x != 0 && a & x != 0 && b & x != 0,
        253u8 & 2 == 0,
        252u8 & 1 == 0,
        252u8 & 2 == 0,
        254u8 & 1 == 0,
        247u8 & 8 == 0,
        243u8 & 4 == 0,
        243u8 & 8 == 0,
        251u8 & 4 == 0,
{
}

/// Which squares a move leaves as they were.
proof fn untouched(p: Position, mv: Move, s: int)
    requires
        sound(p),
        pseudo_legal(p, mv),
        on_board(s),
        s != mv.src(),
        s != mv.dst(),
        mv.flag() == 2 ==> s != home(p.side) + 5 && s != home(p.side) + 7,
        mv.flag() == 3 ==> s != home(p.side) + 3 && s != home(p.side),
        mv.flag() == 5 ==> s != behind(p.side, mv.dst()),
    ensures
        moved(p.mailbox@, p.side, mv)[s] == p.mailbox@[s],
{
    reveal(moved);
    reveal(fits);
    reveal(sound);
    reveal(pseudo_legal);
    move_parts_roundtrip(mv);
}

proof fn rights_stay_ok(p: Position, mv: Move, q: Position, u: UndoInfo)
    requires
        sound(p),
        pseudo_legal(p, mv),
        made(p, mv, q, u),
    ensures
        rights_ok(q),
{
    reveal(sound);
    reveal(pseudo_legal);
    let r = p.castling.0;
    let a = castling_mask(mv.src());
    let b = castling_mask(mv.dst());
    rights_bits(r, a, b, 1);
    rights_bits(r, a, b, 2);
    rights_bits(r, a, b, 4);
    rights_bits(r, a, b, 8);
    move_parts_roundtrip(mv);
    flip_is_involution(p.side);
    if q.castling.holds(1) {
        untouched(p, mv, 4);
        untouched(p, mv, 7);
    }
    if q.castling.holds(2) {
        untouched(p, mv, 4);
        untouched(p, mv, 0);
    }
    if q.castling.holds(4) {
        untouched(p, mv, 60);
        untouched(p, mv, 63);
    }
    if q.castling.holds(8) {
        untouched(p, mv, 60);
        untouched(p, mv, 56);
    }
}

proof fn ep_stays_ok(p: Position, mv: Move, q: Position, u: UndoInfo)
    requires
        sound(p),
        pseudo_legal(p, mv),
        made(p, mv, q, u),
    ensures
        ep_ok(q),
{
    reveal(moved);
    reveal(fits);
    reveal(sound);
    reveal(pseudo_legal);
    move_parts_roundtrip(mv);
    flip_is_involution(p.side);
}

proof fn kings_stay(p: Position, mv: Move, q: Position, u: UndoInfo)
    requires
        playable(p),
        pseudo_legal(p, mv),
        made(p, mv, q, u),
    ensures
        has_kings(q),
{
    reveal(moved);
    reveal(fits);
    reveal(sound);
    reveal(pseudo_legal);
    move_parts_roundtrip(mv);
    flip_is_involution(p.side);
    let us = p.side;
    let them = us.other();
    board_sets(p);
    king_stands(p, us);
    king_stands(p, them);
    pseudo_legal_fits(p, mv);
    piece_code_roundtrip(us, PieceType::King, 0);
    piece_code_roundtrip(them, PieceType::King, 0);
    piece_code_roundtrip(us, PieceType::Pawn, 0);
    piece_code_roundtrip(them, PieceType::Pawn, 0);
    piece_code_roundtrip(us, PieceType::Rook, 0);
    let k = p.king_square(them);
    let o = p.king_square(us);
    if mv.dst() == k {
        captures_attack(p, mv);
        assert(false);
    }
    untouched(p, mv, k);
    king_found(q, them, k);
    if mv.src() == o {
        assert(q.mailbox@[mv.dst()] == piece_code(us, PieceType::King));
        king_found(q, us, mv.dst());
    } else {
        untouched(p, mv, o);
        king_found(q, us, o);
    }
}

/// A side has no more than one king.
pub open spec fn one_king(p: Position, c: Color) -> bool {
    forall|s: int|
        on_board(s) && #[trigger] p.mailbox@[s] == piece_code(c, PieceType::King) ==> s
            == p.king_square(c)
}

/// Where the king of a side stands after a move.
pub open spec fn king_goes(p: Position, mv: Move, c: Color) -> int {
    if c == p.side && type_of(p.mailbox@[mv.src()] as int) == PieceType::King {
        mv.dst()
    } else {
        p.king_square(c)
    }
}

/// A move in a position with one king a side leaves one king a side: that of the
/// mover on the square that it moves to, if it is the king that moves, and otherwise
/// both where they were.
#[verifier::rlimit(30)]
pub proof fn kings_move(p: Position, mv: Move, q: Position, u: UndoInfo)
    requires
        playable(p),
        pseudo_legal(p, mv),
        made(p, mv, q, u),
        one_king(p, Color::White),
        one_king(p, Color::Black),
    ensures
        forall|c: Color| #[trigger] q.king_square(c) == king_goes(p, mv, c),
        forall|c: Color| #[trigger] one_king(q, c),
{
    sound_facts(p);
    kings_stay(p, mv, q, u);
    reveal(moved);
    reveal(fits);
    reveal(pseudo_legal);
    move_parts_roundtrip(mv);
    flip_is_involution(p.side);
    board_sets(p);
    let us = p.side;
    let them = us.other();
    king_stands(p, us);
    king_stands(p, them);
    pseudo_legal_fits(p, mv);
    piece_code_roundtrip(us, PieceType::King, p.mailbox@[mv.src()] as int);
    piece_code_roundtrip(them, PieceType::King, 0);
    assert forall|c: Color|
        #[trigger] q.king_square(c) == king_goes(p, mv, c) && one_king(q, c) by {
        assert(one_king(p, c)) by {
            match c {
                Color::White => {},
                Color::Black => {},
            }
        }
        assert(p.king_square(c) < 64 && q.king_square(c) < 64) by {
            match c {
                Color::White => {},
                Color::Black => {},
            }
        }
        king_stands(p, c);
        king_stands(q, c);
        piece_code_roundtrip(c, PieceType::King, 0);
        assert forall|s: int|
            on_board(s) && #[trigger] q.mailbox@[s] == piece_code(c, PieceType::King) implies s
            == king_goes(p, mv, c) by {
            if s != mv.dst() {
                assert(q.mailbox@[s] == p.mailbox@[s] || q.mailbox@[s] == 12 || mv.flag() == 2
                    || mv.flag() == 3);
            }
        }
    }
    assert forall|c: Color| #[trigger] one_king(q, c) by {
        assert(q.king_square(c) == king_goes(p, mv, c));
    }
}

/// After a pseudo-legal move in a playable position the position is sound. If
/// the move is legal, it is playable.
pub proof fn move_keeps_sound(p: Position, mv: Move, q: Position, u: UndoInfo)
    requires
        playable(p),
        pseudo_legal(p, mv),
        made(p, mv, q, u),
    ensures
        sound(q),
        safe(p, mv) ==> playable(q),
        !exposed(q) == safe(p, mv),
{
    reveal(sound);
    rights_stay_ok(p, mv, q, u);
    ep_stays_ok(p, mv, q, u);
    kings_stay(p, mv, q, u);
    crate::board::after_unique(p, mv, q, u);
}

/// The moves of a list that do not leave the own king attacked.
pub open spec fn keep_safe(p: Position, l: Seq<Move>) -> Seq<Move>
    decreases l.len(),
{
    if l.len() == 0 {
        Seq::empty()
    } else if safe(p, l.last()) {
        keep_safe(p, l.drop_last()).push(l.last())
    } else {
        keep_safe(p, l.drop_last())
    }
}

/// All legal moves, in the order in which they are generated.
pub open spec fn legal_moves(p: Position) -> Seq<Move> {
    keep_safe(p, all_moves(p))
}

pub(crate) proof fn keep_safe_contains(p: Position, l: Seq<Move>, mv: Move)
    ensures
        keep_safe(p, l).contains(mv) == (l.contains(mv) && safe(p, mv)),
    decreases l.len(),
{
    if l.len() > 0 {
        keep_safe_contains(p, l.drop_last(), mv);
        let a = l.drop_last();
        assert(l =~= a + seq![l.last()]);
        concat_contains(a, seq![l.last()], mv);
        single_contains(l.last(), mv);
        let k = keep_safe(p, a);
        assert(k.push(l.last()) =~= k + seq![l.last()]);
        concat_contains(k, seq![l.last()], mv);
    }
}

/// The generator of legal moves gives exactly the legal moves.
pub proof fn legal_moves_are_legal(p: Position, mv: Move)
    requires
        p.wf_boards(),
        p.ep_square <= 64,
        p.king_square(p.side) < 64,
    ensures
        legal_moves(p).contains(mv) == legal(p, mv),
{
    keep_safe_contains(p, all_moves(p), mv);
    all_moves_are_pseudo_legal(p, mv);
}

} // verus!
