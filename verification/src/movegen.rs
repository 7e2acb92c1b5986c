//! Move generation. Pseudo-legal moves are those that the pieces can make;
//! legal are those of them that do not leave the own king attacked.

use crate::attacks::{attack_set, attacked, attacks_of, is_attacked};
use crate::bitboard::{
    group_bits, lowest, member, pop_lsb, rest, rest_decreases, rest_facts, shift_ne, shift_north,
    shift_nw, shift_se, shift_south, shift_sw, NOT_FILE_A, NOT_FILE_H, RANK_1, RANK_3, RANK_6,
    RANK_8,
};
use crate::board::Position;
use crate::rules::{
    all_moves_are_pseudo_legal, exposed, keep_safe, legal_moves, move_keeps_sound, playable,
    pseudo_legal, pseudo_legal_fits, safe, sound_facts,
};
use crate::types::{CastlingRights, Color, Move, MoveList, PieceType, Square, UndoInfo, NO_SQ};
use vstd::prelude::*;

verus! {

/// The moves that `g` gives for each square of a set, in ascending order of squares.
pub open spec fn for_each(bb: u64, g: spec_fn(int) -> Seq<Move>) -> Seq<Move>
    decreases bb,
{
    if bb == 0 {
        Seq::empty()
    } else {
        proof {
            rest_decreases(bb);
        }
        g(lowest(bb)) + for_each(rest(bb), g)
    }
}

/// Moves from one square to each square of a set.
pub open spec fn to_each(from: int, targets: u64, flag: int) -> Seq<Move> {
    for_each(targets, |t: int| seq![Move::of(from, t, flag)])
}

/// Moves to each square of a set, from the square `delta` below it.
pub open spec fn steps_to(targets: u64, delta: int, flag: int) -> Seq<Move> {
    for_each(targets, |t: int| seq![Move::of(t - delta, t, flag)])
}

/// The four promotions on each square of a set; `base` is the flag of the
/// promotion to a knight.
pub open spec fn promotions_to(targets: u64, delta: int, base: int) -> Seq<Move> {
    for_each(
        targets,
        |t: int|
            seq![
                Move::of(t - delta, t, base + 3),
                Move::of(t - delta, t, base + 2),
                Move::of(t - delta, t, base + 1),
                Move::of(t - delta, t, base),
            ],
    )
}

pub open spec fn occupied(p: Position) -> u64 {
    p.colors@[0] | p.colors@[1]
}

pub open spec fn own(p: Position) -> u64 {
    p.colors@[p.side.num()]
}

pub open spec fn theirs(p: Position) -> u64 {
    p.colors@[p.side.other().num()]
}

/// The rank on which pawns of a colour promote.
pub open spec fn last_rank(c: Color) -> u64 {
    match c {
        Color::White => RANK_8,
        Color::Black => RANK_1,
    }
}

/// One step forward: 8 for White, -8 for Black.
pub open spec fn forward(c: Color) -> int {
    match c {
        Color::White => 8,
        Color::Black => -8,
    }
}

/// The empty squares in front of the pawns.
pub open spec fn single_pushes(c: Color, pawns: u64, occ: u64) -> u64 {
    match c {
        Color::White => (pawns << 8) & !occ,
        Color::Black => (pawns >> 8) & !occ,
    }
}

/// The empty squares two steps in front of pawns that have not moved.
pub open spec fn double_pushes(c: Color, pawns: u64, occ: u64) -> u64 {
    match c {
        Color::White => ((single_pushes(c, pawns, occ) & RANK_3) << 8) & !occ,
        Color::Black => ((single_pushes(c, pawns, occ) & RANK_6) >> 8) & !occ,
    }
}

/// The squares that pawns attack towards the a-file.
pub open spec fn west_hits(c: Color, pawns: u64) -> u64 {
    match c {
        Color::White => (pawns << 7) & NOT_FILE_H,
        Color::Black => (pawns >> 9) & NOT_FILE_H,
    }
}

/// The squares that pawns attack towards the h-file.
pub open spec fn east_hits(c: Color, pawns: u64) -> u64 {
    match c {
        Color::White => (pawns << 9) & NOT_FILE_A,
        Color::Black => (pawns >> 7) & NOT_FILE_A,
    }
}

pub open spec fn own_pawns(p: Position) -> u64 {
    p.pieces@[0] & own(p)
}

/// En passant captures.
pub open spec fn ep_moves(p: Position) -> Seq<Move> {
    if p.ep_square != 64 {
        let a = attack_set(p.side.other(), PieceType::Pawn, 0, p.ep_square as int) & own_pawns(p);
        for_each(a, |f: int| seq![Move::of(f, p.ep_square as int, 5)])
    } else {
        Seq::empty()
    }
}

/// All captures by pawns.
pub open spec fn pawn_captures(p: Position) -> Seq<Move> {
    let w = west_hits(p.side, own_pawns(p)) & theirs(p);
    let e = east_hits(p.side, own_pawns(p)) & theirs(p);
    let last = last_rank(p.side);
    let dw = forward(p.side) - 1;
    let de = forward(p.side) + 1;
    steps_to(w & !last, dw, 4) + promotions_to(w & last, dw, 12) + steps_to(e & !last, de, 4)
        + promotions_to(e & last, de, 12) + ep_moves(p)
}

/// All moves by pawns.
pub open spec fn pawn_moves(p: Position) -> Seq<Move> {
    let single = single_pushes(p.side, own_pawns(p), occupied(p));
    let double = double_pushes(p.side, own_pawns(p), occupied(p));
    let last = last_rank(p.side);
    let d = forward(p.side);
    promotions_to(single & last, d, 8) + steps_to(single & !last, d, 0) + steps_to(double, 2 * d, 1)
        + pawn_captures(p)
}

/// Captures and quiet moves of the piece on `f`.
pub open spec fn moves_from(p: Position, pt: PieceType, f: int) -> Seq<Move> {
    let a = attack_set(p.side, pt, occupied(p), f);
    to_each(f, a & theirs(p), 4) + to_each(f, a & !occupied(p), 0)
}

/// Captures of the piece on `f`.
pub open spec fn captures_from(p: Position, pt: PieceType, f: int) -> Seq<Move> {
    to_each(f, attack_set(p.side, pt, occupied(p), f) & theirs(p), 4)
}

/// All moves by the pieces of one type.
pub open spec fn piece_moves(p: Position, pt: PieceType) -> Seq<Move> {
    for_each(p.pieces@[pt.num()] & own(p), |f: int| moves_from(p, pt, f))
}

/// All captures by the pieces of one type.
pub open spec fn piece_captures(p: Position, pt: PieceType) -> Seq<Move> {
    for_each(p.pieces@[pt.num()] & own(p), |f: int| captures_from(p, pt, f))
}

/// The square is attacked by the side that is not to move.
pub open spec fn hit(p: Position, s: int) -> bool {
    attacked(p.pieces@, p.colors@, s, p.side.other())
}

/// The side to move may castle on the king's side.
pub open spec fn can_castle_short(p: Position) -> bool {
    let h = crate::board::home(p.side);
    &&& p.castling.holds(if p.side == Color::White { 1u8 } else { 4u8 })
    &&& !member(occupied(p), h + 5)
    &&& !member(occupied(p), h + 6)
    &&& !hit(p, h + 4)
    &&& !hit(p, h + 5)
    &&& !hit(p, h + 6)
}

/// The side to move may castle on the queen's side.
pub open spec fn can_castle_long(p: Position) -> bool {
    let h = crate::board::home(p.side);
    &&& p.castling.holds(if p.side == Color::White { 2u8 } else { 8u8 })
    &&& !member(occupied(p), h + 1)
    &&& !member(occupied(p), h + 2)
    &&& !member(occupied(p), h + 3)
    &&& !hit(p, h + 4)
    &&& !hit(p, h + 3)
    &&& !hit(p, h + 2)
}

/// The castling moves.
pub open spec fn castling_moves(p: Position) -> Seq<Move> {
    let h = crate::board::home(p.side);
    let short = if can_castle_short(p) {
        seq![Move::of(h + 4, h + 6, 2)]
    } else {
        Seq::empty()
    };
    let long = if can_castle_long(p) {
        seq![Move::of(h + 4, h + 2, 3)]
    } else {
        Seq::empty()
    };
    short + long
}

/// All pseudo-legal moves, in the order in which they are generated.
#[verifier::opaque]
pub open spec fn all_moves(p: Position) -> Seq<Move> {
    pawn_moves(p) + piece_moves(p, PieceType::Knight) + piece_moves(p, PieceType::Bishop)
        + piece_moves(p, PieceType::Rook) + piece_moves(p, PieceType::Queen) + moves_from(
        p,
        PieceType::King,
        p.king_square(p.side),
    ) + castling_moves(p)
}

/// All pseudo-legal captures, in the order in which they are generated.
#[verifier::opaque]
pub open spec fn capture_moves(p: Position) -> Seq<Move> {
    pawn_captures(p) + piece_captures(p, PieceType::Knight) + piece_captures(p, PieceType::Bishop)
        + piece_captures(p, PieceType::Rook) + piece_captures(p, PieceType::Queen) + captures_from(
        p,
        PieceType::King,
        p.king_square(p.side),
    )
}

// ---- Generators ----
fn push_to_each(list: &mut MoveList, from: Square, targets: u64, flag: u16)
    requires
        old(list).wf(),
        from < 64,
        flag < 16,
    ensures
        final(list).wf(),
        final(list)@ == old(list)@ + to_each(from as int, targets, flag as int),
{
    let mut left: u64 = targets;
    let ghost g = |t: int| seq![Move::of(from as int, t, flag as int)];
    assert(list@ + for_each(left, g) =~= old(list)@ + for_each(targets, g));
    while left != 0
        invariant
            list.wf(),
            from < 64,
            flag < 16,
            g == (|t: int| seq![Move::of(from as int, t, flag as int)]),
            list@ + for_each(left, g) == old(list)@ + for_each(targets, g),
        decreases left,
    {
        let ghost before = list@;
        let ghost l0 = left;
        let to: Square = pop_lsb(&mut left);
        list.push(Move::new(from, to, flag));
        assert(before + for_each(l0, g) =~= list@ + for_each(left, g));
    }
    assert(list@ + for_each(left, g) =~= list@);
}

fn push_steps_to(list: &mut MoveList, targets: u64, delta: i8, flag: u16)
    requires
        old(list).wf(),
        -16 <= delta <= 16,
        forall|t: int| 0 <= t < 64 && #[trigger] member(targets, t) ==> 0 <= t - delta < 64,
        flag < 16,
    ensures
        final(list).wf(),
        final(list)@ == old(list)@ + steps_to(targets, delta as int, flag as int),
{
    let mut left: u64 = targets;
    let ghost g = |t: int| seq![Move::of(t - delta, t, flag as int)];
    assert(list@ + for_each(left, g) =~= old(list)@ + for_each(targets, g));
    while left != 0
        invariant
            list.wf(),
            flag < 16,
            -16 <= delta <= 16,
            forall|t: int| 0 <= t < 64 && #[trigger] member(left, t) ==> 0 <= t - delta < 64,
            g == (|t: int| seq![Move::of(t - delta, t, flag as int)]),
            list@ + for_each(left, g) == old(list)@ + for_each(targets, g),
        decreases left,
    {
        let ghost before = list@;
        let ghost l0 = left;
        proof {
            rest_facts(l0);
        }
        let to: Square = pop_lsb(&mut left);
        let from: Square = (to as i8 - delta) as u8;
        list.push(Move::new(from, to, flag));
        assert(before + for_each(l0, g) =~= list@ + for_each(left, g));
    }
    assert(list@ + for_each(left, g) =~= list@);
}

fn push_promotions_to(list: &mut MoveList, targets: u64, delta: i8, base: u16)
    requires
        old(list).wf(),
        -16 <= delta <= 16,
        forall|t: int| 0 <= t < 64 && #[trigger] member(targets, t) ==> 0 <= t - delta < 64,
        base <= 12,
    ensures
        final(list).wf(),
        final(list)@ == old(list)@ + promotions_to(targets, delta as int, base as int),
{
    let mut left: u64 = targets;
    let ghost g = |t: int|
        seq![
            Move::of(t - delta, t, base + 3),
            Move::of(t - delta, t, base + 2),
            Move::of(t - delta, t, base + 1),
            Move::of(t - delta, t, base as int),
        ];
    assert(list@ + for_each(left, g) =~= old(list)@ + for_each(targets, g));
    while left != 0
        invariant
            list.wf(),
            base <= 12,
            -16 <= delta <= 16,
            forall|t: int| 0 <= t < 64 && #[trigger] member(left, t) ==> 0 <= t - delta < 64,
            g == (|t: int|
                seq![
                    Move::of(t - delta, t, base + 3),
                    Move::of(t - delta, t, base + 2),
                    Move::of(t - delta, t, base + 1),
                    Move::of(t - delta, t, base as int),
                ]),
            list@ + for_each(left, g) == old(list)@ + for_each(targets, g),
        decreases left,
    {
        let ghost before = list@;
        let ghost l0 = left;
        proof {
            rest_facts(l0);
        }
        let to: Square = pop_lsb(&mut left);
        let from: Square = (to as i8 - delta) as u8;
        list.push(Move::new(from, to, base + 3));
        list.push(Move::new(from, to, base + 2));
        list.push(Move::new(from, to, base + 1));
        list.push(Move::new(from, to, base));
        assert(list@ =~= before + g(to as int));
        assert(before + for_each(l0, g) =~= list@ + for_each(left, g));
    }
    assert(list@ + for_each(left, g) =~= list@);
    assert(for_each(targets, g) == promotions_to(targets, delta as int, base as int));
}

fn generate_pawn_captures(pos: &Position, list: &mut MoveList)
    requires
        old(list).wf(),
        pos.ep_square <= 64,
    ensures
        final(list).wf(),
        final(list)@ == old(list)@ + pawn_captures(*pos),
{
    broadcast use group_bits;

    let us: Color = pos.side;
    let pawns: u64 = pos.pieces[0] & pos.us();
    let their: u64 = pos.them();
    let promo_rank: u64 = if us == Color::White {
        RANK_8
    } else {
        RANK_1
    };
    let west: u64 = (if us == Color::White {
        shift_nw(pawns)
    } else {
        shift_sw(pawns)
    }) & their;
    let east: u64 = (if us == Color::White {
        shift_ne(pawns)
    } else {
        shift_se(pawns)
    }) & their;
    let dw: i8 = if us == Color::White {
        7
    } else {
        -9
    };
    let de: i8 = if us == Color::White {
        9
    } else {
        -7
    };
    push_steps_to(list, west & !promo_rank, dw, Move::FLAG_CAPTURE);
    push_promotions_to(list, west & promo_rank, dw, Move::FLAG_KNIGHT_PROMO_CAP);
    push_steps_to(list, east & !promo_rank, de, Move::FLAG_CAPTURE);
    push_promotions_to(list, east & promo_rank, de, Move::FLAG_KNIGHT_PROMO_CAP);
    if pos.ep_square != NO_SQ {
        let ep: Square = pos.ep_square;
        let attackers: u64 = attacks_of(us.flip(), PieceType::Pawn, 0, ep) & pawns;
        let mut left: u64 = attackers;
        let ghost g = |f: int| seq![Move::of(f, pos.ep_square as int, 5)];
        let ghost start = list@;
        assert(list@ + for_each(left, g) =~= start + for_each(attackers, g));
        while left != 0
            invariant
                list.wf(),
                ep < 64,
                ep == pos.ep_square,
                g == (|f: int| seq![Move::of(f, pos.ep_square as int, 5)]),
                list@ + for_each(left, g) == start + for_each(attackers, g),
            decreases left,
        {
            let ghost before = list@;
            let ghost l0 = left;
            let from: Square = pop_lsb(&mut left);
            list.push(Move::new(from, ep, Move::FLAG_EP));
            assert(before + for_each(l0, g) =~= list@ + for_each(left, g));
        }
        assert(list@ + for_each(left, g) =~= list@);
        assert(list@ == start + ep_moves(*pos));
    }
    assert(list@ =~= old(list)@ + pawn_captures(*pos));
}

fn generate_pawns(pos: &Position, list: &mut MoveList)
    requires
        old(list).wf(),
        pos.ep_square <= 64,
    ensures
        final(list).wf(),
        final(list)@ == old(list)@ + pawn_moves(*pos),
{
    broadcast use group_bits;

    let us: Color = pos.side;
    let occ: u64 = pos.occupancy();
    let pawns: u64 = pos.pieces[0] & pos.us();
    let empty: u64 = !occ;
    let single: u64 = (if us == Color::White {
        shift_north(pawns)
    } else {
        shift_south(pawns)
    }) & empty;
    let double: u64 = (if us == Color::White {
        shift_north(single & RANK_3)
    } else {
        shift_south(single & RANK_6)
    }) & empty;
    let promo_rank: u64 = if us == Color::White {
        RANK_8
    } else {
        RANK_1
    };
    let d: i8 = if us == Color::White {
        8
    } else {
        -8
    };
    push_promotions_to(list, single & promo_rank, d, Move::FLAG_KNIGHT_PROMO);
    push_steps_to(list, single & !promo_rank, d, Move::FLAG_QUIET);
    push_steps_to(list, double, 2 * d, Move::FLAG_DOUBLE_PAWN);
    generate_pawn_captures(pos, list);
    assert(list@ =~= old(list)@ + pawn_moves(*pos));
}

fn generate_from(pos: &Position, list: &mut MoveList, pt: PieceType, from: Square)
    requires
        old(list).wf(),
        from < 64,
    ensures
        final(list).wf(),
        final(list)@ == old(list)@ + moves_from(*pos, pt, from as int),
{
    let occ: u64 = pos.occupancy();
    let atk: u64 = attacks_of(pos.side, pt, occ, from);
    push_to_each(list, from, atk & pos.them(), Move::FLAG_CAPTURE);
    push_to_each(list, from, atk & !occ, Move::FLAG_QUIET);
    assert(list@ =~= old(list)@ + moves_from(*pos, pt, from as int));
}

fn generate_pieces(pos: &Position, list: &mut MoveList, pt: PieceType)
    requires
        old(list).wf(),
        pt != PieceType::NoType,
    ensures
        final(list).wf(),
        final(list)@ == old(list)@ + piece_moves(*pos, pt),
{
    let bb: u64 = pos.pieces[pt.index()] & pos.us();
    let mut left: u64 = bb;
    let ghost g = |f: int| moves_from(*pos, pt, f);
    assert(list@ + for_each(left, g) =~= old(list)@ + for_each(bb, g));
    while left != 0
        invariant
            list.wf(),
            pt != PieceType::NoType,
            g == (|f: int| moves_from(*pos, pt, f)),
            list@ + for_each(left, g) == old(list)@ + for_each(bb, g),
        decreases left,
    {
        let ghost before = list@;
        let ghost l0 = left;
        let from: Square = pop_lsb(&mut left);
        generate_from(pos, list, pt, from);
        assert(before + for_each(l0, g) =~= list@ + for_each(left, g));
    }
    assert(list@ + for_each(left, g) =~= list@);
}

fn generate_piece_captures(pos: &Position, list: &mut MoveList, pt: PieceType)
    requires
        old(list).wf(),
        pt != PieceType::NoType,
    ensures
        final(list).wf(),
        final(list)@ == old(list)@ + piece_captures(*pos, pt),
{
    let bb: u64 = pos.pieces[pt.index()] & pos.us();
    let mut left: u64 = bb;
    let ghost g = |f: int| captures_from(*pos, pt, f);
    assert(list@ + for_each(left, g) =~= old(list)@ + for_each(bb, g));
    while left != 0
        invariant
            list.wf(),
            pt != PieceType::NoType,
            g == (|f: int| captures_from(*pos, pt, f)),
            list@ + for_each(left, g) == old(list)@ + for_each(bb, g),
        decreases left,
    {
        let ghost before = list@;
        let ghost l0 = left;
        let from: Square = pop_lsb(&mut left);
        let atk: u64 = attacks_of(pos.side, pt, pos.occupancy(), from);
        push_to_each(list, from, atk & pos.them(), Move::FLAG_CAPTURE);
        assert(before + for_each(l0, g) =~= list@ + for_each(left, g));
    }
    assert(list@ + for_each(left, g) =~= list@);
}

/// The square is empty and the other side does not attack it.
fn empty_square(pos: &Position, s: Square) -> (b: bool)
    requires
        s < 64,
    ensures
        b == !member(occupied(*pos), s as int),
{
    !crate::bitboard::contains(pos.occupancy(), s)
}

fn unhit(pos: &Position, s: Square) -> (b: bool)
    requires
        s < 64,
    ensures
        b == !hit(*pos, s as int),
{
    !is_attacked(&pos.pieces, &pos.colors, s, pos.side.flip())
}

fn generate_castling(pos: &Position, list: &mut MoveList)
    requires
        old(list).wf(),
    ensures
        final(list).wf(),
        final(list)@ == old(list)@ + castling_moves(*pos),
{
    let h: Square = if pos.side == Color::White {
        0
    } else {
        56
    };
    let short: u8 = if pos.side == Color::White {
        CastlingRights::WK
    } else {
        CastlingRights::BK
    };
    let long: u8 = if pos.side == Color::White {
        CastlingRights::WQ
    } else {
        CastlingRights::BQ
    };
    if pos.castling.has(short) && empty_square(pos, h + 5) && empty_square(pos, h + 6) && unhit(
        pos,
        h + 4,
    ) && unhit(pos, h + 5) && unhit(pos, h + 6) {
        list.push(Move::new(h + 4, h + 6, Move::FLAG_KING_CASTLE));
    }
    if pos.castling.has(long) && empty_square(pos, h + 1) && empty_square(pos, h + 2)
        && empty_square(pos, h + 3) && unhit(pos, h + 4) && unhit(pos, h + 3) && unhit(pos, h + 2) {
        list.push(Move::new(h + 4, h + 2, Move::FLAG_QUEEN_CASTLE));
    }
    assert(list@ =~= old(list)@ + castling_moves(*pos));
}

/// Appends all pseudo-legal moves.
pub fn generate_all(pos: &Position, list: &mut MoveList)
    requires
        old(list).wf(),
        pos.ep_square <= 64,
        pos.king_square(pos.side) < 64,
    ensures
        final(list).wf(),
        final(list)@ == old(list)@ + all_moves(*pos),
{
    reveal(all_moves);
    generate_pawns(pos, list);
    generate_pieces(pos, list, PieceType::Knight);
    generate_pieces(pos, list, PieceType::Bishop);
    generate_pieces(pos, list, PieceType::Rook);
    generate_pieces(pos, list, PieceType::Queen);
    generate_from(pos, list, PieceType::King, pos.king_sq(pos.side));
    generate_castling(pos, list);
    assert(list@ =~= old(list)@ + all_moves(*pos));
}

/// Appends all pseudo-legal captures.
pub fn generate_captures(pos: &Position, list: &mut MoveList)
    requires
        old(list).wf(),
        pos.ep_square <= 64,
        pos.king_square(pos.side) < 64,
    ensures
        final(list).wf(),
        final(list)@ == old(list)@ + capture_moves(*pos),
{
    reveal(capture_moves);
    generate_pawn_captures(pos, list);
    generate_piece_captures(pos, list, PieceType::Knight);
    generate_piece_captures(pos, list, PieceType::Bishop);
    generate_piece_captures(pos, list, PieceType::Rook);
    generate_piece_captures(pos, list, PieceType::Queen);
    let ksq: Square = pos.king_sq(pos.side);
    let atk: u64 = attacks_of(pos.side, PieceType::King, pos.occupancy(), ksq);
    push_to_each(list, ksq, atk & pos.them(), Move::FLAG_CAPTURE);
    assert(list@ =~= old(list)@ + capture_moves(*pos));
}

/// The king of the side that moved last is not attacked.
pub fn mover_is_safe(pos: &Position) -> (b: bool)
    requires
        pos.king_square(pos.side.other()) < 64,
    ensures
        b == !exposed(*pos),
{
    let ksq: Square = pos.king_sq(pos.side.flip());
    !is_attacked(&pos.pieces, &pos.colors, ksq, pos.side)
}

/// Makes the move, tests whether it leaves the own king safe, and takes it back.
pub fn is_safe(pos: &mut Position, mv: Move) -> (b: bool)
    requires
        playable(*old(pos)),
        pseudo_legal(*old(pos), mv),
        old(pos).clock_room(1),
    ensures
        *final(pos) == *old(pos),
        b == safe(*old(pos), mv),
{
    proof {
        sound_facts(*pos);
        pseudo_legal_fits(*pos, mv);
    }
    let undo: UndoInfo = pos.make_move(mv);
    proof {
        move_keeps_sound(*old(pos), mv, *pos, undo);
        sound_facts(*pos);
    }
    let b: bool = mover_is_safe(pos);
    pos.unmake_move(mv, undo);
    b
}

/// Appends all legal moves.
pub fn generate_legal(pos: &mut Position, list: &mut MoveList)
    requires
        playable(*old(pos)),
        old(pos).clock_room(1),
        old(list).wf(),
    ensures
        *final(pos) == *old(pos),
        final(list).wf(),
        final(list)@ == old(list)@ + legal_moves(*old(pos)),
{
    let mut pseudo: MoveList = MoveList::new();
    proof {
        sound_facts(*pos);
    }
    generate_all(pos, &mut pseudo);
    assert(pseudo@ =~= all_moves(*pos));
    let mut i: usize = 0;
    assert(pseudo@.take(0) =~= Seq::<Move>::empty());
    assert(list@ =~= old(list)@ + keep_safe(*pos, pseudo@.take(0)));
    while i < pseudo.len
        invariant
            i <= pseudo@.len(),
            pseudo.wf(),
            list.wf(),
            *pos == *old(pos),
            playable(*pos),
            pos.clock_room(1),
            pseudo@ == all_moves(*pos),
            list@ == old(list)@ + keep_safe(*pos, pseudo@.take(i as int)),
        decreases pseudo@.len() - i,
    {
        let mv: Move = pseudo.moves[i];
        proof {
            assert(pseudo@.contains(mv));
            sound_facts(*pos);
            all_moves_are_pseudo_legal(*pos, mv);
            let l = pseudo@.take(i as int + 1);
            assert(l.drop_last() =~= pseudo@.take(i as int));
            assert(l.last() == mv);
        }
        if is_safe(pos, mv) {
            let ghost before = list@;
            list.push(mv);
            assert(list@ =~= old(list)@ + keep_safe(*pos, pseudo@.take(i as int)).push(mv));
        }
        i = i + 1;
    }
    assert(pseudo@.take(i as int) =~= pseudo@);
}

} // verus!
