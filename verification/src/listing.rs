//! What holds of the lists of moves and of the board from move to move: each move is
//! listed once, and only captures take a piece off the board.

use crate::attacks::attack_set;
use crate::bitboard::{
    empty_set, group_bits, lowest, lowest_facts, member, rest, rest_facts, squares,
};
use crate::board::{behind, home, made, moved, Position};
use crate::movegen::{
    all_moves, capture_moves, captures_from, castling_moves,
    double_pushes, east_hits, ep_moves, for_each, forward, last_rank, moves_from, occupied, own,
    own_pawns, pawn_captures, pawn_moves, piece_captures, piece_moves, promotions_to, single_pushes,
    steps_to, theirs, to_each, west_hits,
};
use crate::rules::{
    board_sets, castling_moves_contains, concat_contains, ep_moves_contains,
    for_each_contains, gives, keep_safe, keep_safe_contains, king_moves_contains, king_stands,
    legal_moves, moves_from_contains, pawn_captures_contains, pawn_moves_contains,
    piece_moves_contains, playable, promotions_to_contains, pseudo_legal, single_contains,
    sound_facts, steps_to_contains, to_each_contains,
};
use crate::tablebase::piece_count;
use crate::types::{
    flip_is_involution, move_of_parts, move_parts_roundtrip, on_board, piece_code_roundtrip, Move,
    PieceType, UndoInfo,
};
use vstd::prelude::*;

verus! {

// ---- Lists without repetition ----
/// Two lists that share no move.
spec fn apart(a: Seq<Move>, b: Seq<Move>) -> bool {
    forall|m: Move| !(#[trigger] a.contains(m) && b.contains(m))
}

/// Lists that share no move can be joined.
proof fn joined_once(a: Seq<Move>, b: Seq<Move>)
    requires
        a.no_duplicates(),
        b.no_duplicates(),
        apart(a, b),
    ensures
        (a + b).no_duplicates(),
{
    let c = a + b;
    assert forall|i: int, j: int| 0 <= i < c.len() && 0 <= j < c.len() && i != j implies c[i]
        != c[j] by {
        if i < a.len() && j >= a.len() {
            assert(a.contains(c[i]));
            assert(b[j - a.len()] == c[j]);
            assert(b.contains(c[j]));
        } else if i >= a.len() && j < a.len() {
            assert(a.contains(c[j]));
            assert(b[i - a.len()] == c[i]);
            assert(b.contains(c[i]));
        }
    }
}

/// A list over a set names each move once, if the parts do and each move tells the
/// square that it comes from.
proof fn for_each_once(bb: u64, g: spec_fn(int) -> Seq<Move>, tag: spec_fn(Move) -> int)
    requires
        forall|s: int| on_board(s) && #[trigger] member(bb, s) ==> g(s).no_duplicates(),
        forall|s: int, m: Move| #[trigger] gives(bb, g, m, s) ==> tag(m) == s,
    ensures
        for_each(bb, g).no_duplicates(),
    decreases bb,
{
    if bb != 0 {
        rest_facts(bb);
        lowest_facts(bb);
        let r = rest(bb);
        assert forall|s: int, m: Move| #[trigger] gives(r, g, m, s) implies tag(m) == s by {
            assert(gives(bb, g, m, s));
        }
        for_each_once(r, g, tag);
        let a = g(lowest(bb));
        let b = for_each(r, g);
        assert forall|m: Move| !(#[trigger] a.contains(m) && b.contains(m)) by {
            if a.contains(m) && b.contains(m) {
                for_each_contains(r, g, m);
                let s = choose|s: int| #[trigger] gives(r, g, m, s);
                assert(gives(bb, g, m, s));
                assert(gives(bb, g, m, lowest(bb)));
            }
        }
        joined_once(a, b);
    }
}

proof fn to_each_once(from: int, targets: u64, flag: int)
    requires
        on_board(from),
        0 <= flag < 16,
    ensures
        to_each(from, targets, flag).no_duplicates(),
{
    let g = |t: int| seq![Move::of(from, t, flag)];
    let tag = |m: Move| m.dst();
    assert forall|s: int, m: Move| #[trigger] gives(targets, g, m, s) implies tag(m) == s by {
        single_contains(Move::of(from, s, flag), m);
        move_of_parts(from, s, flag);
    }
    for_each_once(targets, g, tag);
}

proof fn steps_to_once(targets: u64, delta: int, flag: int)
    requires
        forall|t: int| 0 <= t < 64 && #[trigger] member(targets, t) ==> 0 <= t - delta < 64,
        0 <= flag < 16,
    ensures
        steps_to(targets, delta, flag).no_duplicates(),
{
    let g = |t: int| seq![Move::of(t - delta, t, flag)];
    let tag = |m: Move| m.dst();
    assert forall|s: int, m: Move| #[trigger] gives(targets, g, m, s) implies tag(m) == s by {
        single_contains(Move::of(s - delta, s, flag), m);
        move_of_parts(s - delta, s, flag);
    }
    for_each_once(targets, g, tag);
}

proof fn promotions_to_once(targets: u64, delta: int, base: int)
    requires
        forall|t: int| 0 <= t < 64 && #[trigger] member(targets, t) ==> 0 <= t - delta < 64,
        0 <= base <= 12,
    ensures
        promotions_to(targets, delta, base).no_duplicates(),
{
    let g = |t: int|
        seq![
            Move::of(t - delta, t, base + 3),
            Move::of(t - delta, t, base + 2),
            Move::of(t - delta, t, base + 1),
            Move::of(t - delta, t, base),
        ];
    let tag = |m: Move| m.dst();
    assert forall|s: int| on_board(s) && #[trigger] member(targets, s) implies g(
        s,
    ).no_duplicates() by {
        move_of_parts(s - delta, s, base);
        move_of_parts(s - delta, s, base + 1);
        move_of_parts(s - delta, s, base + 2);
        move_of_parts(s - delta, s, base + 3);
    }
    assert forall|s: int, m: Move| #[trigger] gives(targets, g, m, s) implies tag(m) == s by {
        let l = g(s);
        let i = choose|i: int| 0 <= i < l.len() && l[i] == m;
        move_of_parts(s - delta, s, base);
        move_of_parts(s - delta, s, base + 1);
        move_of_parts(s - delta, s, base + 2);
        move_of_parts(s - delta, s, base + 3);
    }
    assert(promotions_to(targets, delta, base) == for_each(targets, g));
    for_each_once(targets, g, tag);
}

proof fn ep_moves_once(p: Position)
    requires
        p.wf_boards(),
        p.ep_square <= 64,
    ensures
        ep_moves(p).no_duplicates(),
{
    if p.ep_square != 64 {
        let ep = p.ep_square as int;
        let bb = attack_set(p.side.other(), PieceType::Pawn, 0, ep) & own_pawns(p);
        let g = |f: int| seq![Move::of(f, p.ep_square as int, 5)];
        let tag = |m: Move| m.src();
        assert forall|s: int, m: Move| #[trigger] gives(bb, g, m, s) implies tag(m) == s by {
            single_contains(Move::of(s, ep, 5), m);
            move_of_parts(s, ep, 5);
        }
        for_each_once(bb, g, tag);
    }
}

/// The captures by pawns name each move once.
proof fn pawn_captures_once(p: Position)
    requires
        p.wf_boards(),
        p.ep_square <= 64,
    ensures
        pawn_captures(p).no_duplicates(),
{
    broadcast use group_bits;

    board_sets(p);
    let w = west_hits(p.side, own_pawns(p)) & theirs(p);
    let e = east_hits(p.side, own_pawns(p)) & theirs(p);
    let last = last_rank(p.side);
    let dw = forward(p.side) - 1;
    let de = forward(p.side) + 1;
    let a = steps_to(w & !last, dw, 4);
    let b = promotions_to(w & last, dw, 12);
    let c = steps_to(e & !last, de, 4);
    let d = promotions_to(e & last, de, 12);
    steps_to_once(w & !last, dw, 4);
    promotions_to_once(w & last, dw, 12);
    steps_to_once(e & !last, de, 4);
    promotions_to_once(e & last, de, 12);
    ep_moves_once(p);
    assert forall|m: Move| !(#[trigger] a.contains(m) && b.contains(m)) by {
        steps_to_contains(w & !last, dw, 4, m);
        promotions_to_contains(w & last, dw, 12, m);
        steps_to_contains(e & !last, de, 4, m);
        promotions_to_contains(e & last, de, 12, m);
        ep_moves_contains(p, m);
        concat_contains(a, b, m);
        concat_contains(a + b, c, m);
        concat_contains(a + b + c, d, m);
    }
    joined_once(a, b);
    assert forall|m: Move| !(#[trigger] (a + b).contains(m) && c.contains(m)) by {
        steps_to_contains(w & !last, dw, 4, m);
        promotions_to_contains(w & last, dw, 12, m);
        steps_to_contains(e & !last, de, 4, m);
        promotions_to_contains(e & last, de, 12, m);
        ep_moves_contains(p, m);
        concat_contains(a, b, m);
        concat_contains(a + b, c, m);
        concat_contains(a + b + c, d, m);
    }
    joined_once(a + b, c);
    assert forall|m: Move| !(#[trigger] (a + b + c).contains(m) && d.contains(m)) by {
        steps_to_contains(w & !last, dw, 4, m);
        promotions_to_contains(w & last, dw, 12, m);
        steps_to_contains(e & !last, de, 4, m);
        promotions_to_contains(e & last, de, 12, m);
        ep_moves_contains(p, m);
        concat_contains(a, b, m);
        concat_contains(a + b, c, m);
        concat_contains(a + b + c, d, m);
    }
    joined_once(a + b + c, d);
    assert forall|m: Move| !(#[trigger] (a + b + c + d).contains(m) && ep_moves(p).contains(m)) by {
        steps_to_contains(w & !last, dw, 4, m);
        promotions_to_contains(w & last, dw, 12, m);
        steps_to_contains(e & !last, de, 4, m);
        promotions_to_contains(e & last, de, 12, m);
        ep_moves_contains(p, m);
        concat_contains(a, b, m);
        concat_contains(a + b, c, m);
        concat_contains(a + b + c, d, m);
    }
    joined_once(a + b + c + d, ep_moves(p));
}

/// The moves by pawns name each move once.
proof fn pawn_moves_once(p: Position)
    requires
        p.wf_boards(),
        p.ep_square <= 64,
    ensures
        pawn_moves(p).no_duplicates(),
{
    broadcast use group_bits;

    board_sets(p);
    let single = single_pushes(p.side, own_pawns(p), occupied(p));
    let double = double_pushes(p.side, own_pawns(p), occupied(p));
    let last = last_rank(p.side);
    let d = forward(p.side);
    let a = promotions_to(single & last, d, 8);
    let b = steps_to(single & !last, d, 0);
    let c = steps_to(double, 2 * d, 1);
    promotions_to_once(single & last, d, 8);
    steps_to_once(single & !last, d, 0);
    steps_to_once(double, 2 * d, 1);
    pawn_captures_once(p);
    assert forall|m: Move| !(#[trigger] a.contains(m) && b.contains(m)) by {
        promotions_to_contains(single & last, d, 8, m);
        steps_to_contains(single & !last, d, 0, m);
    }
    joined_once(a, b);
    assert forall|m: Move| !(#[trigger] (a + b).contains(m) && c.contains(m)) by {
        promotions_to_contains(single & last, d, 8, m);
        steps_to_contains(single & !last, d, 0, m);
        steps_to_contains(double, 2 * d, 1, m);
        concat_contains(a, b, m);
    }
    joined_once(a + b, c);
    assert forall|m: Move| !(#[trigger] (a + b + c).contains(m) && pawn_captures(p).contains(m)) by {
        promotions_to_contains(single & last, d, 8, m);
        steps_to_contains(single & !last, d, 0, m);
        steps_to_contains(double, 2 * d, 1, m);
        pawn_captures_contains(p, m);
        concat_contains(a, b, m);
        concat_contains(a + b, c, m);
    }
    joined_once(a + b + c, pawn_captures(p));
}

proof fn moves_from_once(p: Position, pt: PieceType, f: int)
    requires
        on_board(f),
    ensures
        moves_from(p, pt, f).no_duplicates(),
        captures_from(p, pt, f).no_duplicates(),
{
    let s = attack_set(p.side, pt, occupied(p), f);
    let a = to_each(f, s & theirs(p), 4);
    let b = to_each(f, s & !occupied(p), 0);
    to_each_once(f, s & theirs(p), 4);
    to_each_once(f, s & !occupied(p), 0);
    assert forall|m: Move| !(#[trigger] a.contains(m) && b.contains(m)) by {
        to_each_contains(f, s & theirs(p), 4, m);
        to_each_contains(f, s & !occupied(p), 0, m);
    }
    joined_once(a, b);
}

proof fn piece_moves_once(p: Position, pt: PieceType)
    requires
        p.wf_boards(),
    ensures
        piece_moves(p, pt).no_duplicates(),
        piece_captures(p, pt).no_duplicates(),
{
    let bb = p.pieces@[pt.num()] & own(p);
    let g = |f: int| moves_from(p, pt, f);
    let h = |f: int| captures_from(p, pt, f);
    let tag = |m: Move| m.src();
    assert forall|s: int| on_board(s) && #[trigger] member(bb, s) implies g(s).no_duplicates() && h(
        s,
    ).no_duplicates() by {
        moves_from_once(p, pt, s);
    }
    assert forall|s: int, m: Move| #[trigger] gives(bb, g, m, s) implies tag(m) == s by {
        moves_from_contains(p, pt, s, m);
    }
    assert forall|s: int, m: Move| #[trigger] gives(bb, h, m, s) implies tag(m) == s by {
        moves_from_contains(p, pt, s, m);
    }
    for_each_once(bb, g, tag);
    for_each_once(bb, h, tag);
}

proof fn castling_moves_once(p: Position)
    ensures
        castling_moves(p).no_duplicates(),
{
    let h = home(p.side);
    move_of_parts(h + 4, h + 6, 2);
    move_of_parts(h + 4, h + 2, 3);
}

/// No move stands twice in the list of all pseudo-legal moves.
#[verifier::rlimit(30)]
pub proof fn all_moves_once(p: Position)
    requires
        playable(p),
    ensures
        all_moves(p).no_duplicates(),
{
    sound_facts(p);
    reveal(all_moves);
    king_stands(p, p.side);
    let a = pawn_moves(p);
    let b = piece_moves(p, PieceType::Knight);
    let c = piece_moves(p, PieceType::Bishop);
    let d = piece_moves(p, PieceType::Rook);
    let e = piece_moves(p, PieceType::Queen);
    let k = moves_from(p, PieceType::King, p.king_square(p.side));
    let z = castling_moves(p);
    pawn_moves_once(p);
    piece_moves_once(p, PieceType::Knight);
    piece_moves_once(p, PieceType::Bishop);
    piece_moves_once(p, PieceType::Rook);
    piece_moves_once(p, PieceType::Queen);
    moves_from_once(p, PieceType::King, p.king_square(p.side));
    castling_moves_once(p);
    assert forall|m: Move| !(#[trigger] a.contains(m) && b.contains(m)) by {
        listed(p, m);
    }
    joined_once(a, b);
    assert forall|m: Move| !(#[trigger] (a + b).contains(m) && c.contains(m)) by {
        listed(p, m);
    }
    joined_once(a + b, c);
    assert forall|m: Move| !(#[trigger] (a + b + c).contains(m) && d.contains(m)) by {
        listed(p, m);
    }
    joined_once(a + b + c, d);
    assert forall|m: Move| !(#[trigger] (a + b + c + d).contains(m) && e.contains(m)) by {
        listed(p, m);
    }
    joined_once(a + b + c + d, e);
    assert forall|m: Move| !(#[trigger] (a + b + c + d + e).contains(m) && k.contains(m)) by {
        listed(p, m);
    }
    joined_once(a + b + c + d + e, k);
    assert forall|m: Move| !(#[trigger] (a + b + c + d + e + k).contains(m) && z.contains(m)) by {
        listed(p, m);
    }
    joined_once(a + b + c + d + e + k, z);
}

/// Which part of the list a move stands in, told by the piece that moves and the flag.
spec fn part_of(p: Position, m: Move) -> int {
    if m.flag() == 2 || m.flag() == 3 {
        6
    } else {
        crate::types::type_of(p.mailbox@[m.src()] as int).num()
    }
}

/// The parts of the lists of all moves and of captures hold moves of different kinds.
proof fn listed(p: Position, m: Move)
    requires
        playable(p),
    ensures
        ({
            let a = pawn_moves(p);
            let b = piece_moves(p, PieceType::Knight);
            let c = piece_moves(p, PieceType::Bishop);
            let d = piece_moves(p, PieceType::Rook);
            let e = piece_moves(p, PieceType::Queen);
            let k = moves_from(p, PieceType::King, p.king_square(p.side));
            &&& a.contains(m) ==> part_of(p, m) == 0
            &&& b.contains(m) ==> part_of(p, m) == 1
            &&& c.contains(m) ==> part_of(p, m) == 2
            &&& d.contains(m) ==> part_of(p, m) == 3
            &&& e.contains(m) ==> part_of(p, m) == 4
            &&& k.contains(m) ==> part_of(p, m) == 5
            &&& castling_moves(p).contains(m) ==> part_of(p, m) == 6
            &&& (a + b).contains(m) ==> part_of(p, m) < 2
            &&& (a + b + c).contains(m) ==> part_of(p, m) < 3
            &&& (a + b + c + d).contains(m) ==> part_of(p, m) < 4
            &&& (a + b + c + d + e).contains(m) ==> part_of(p, m) < 5
            &&& (a + b + c + d + e + k).contains(m) ==> part_of(p, m) < 6
        }),
        ({
            let a = pawn_captures(p);
            let b = piece_captures(p, PieceType::Knight);
            let c = piece_captures(p, PieceType::Bishop);
            let d = piece_captures(p, PieceType::Rook);
            let e = piece_captures(p, PieceType::Queen);
            &&& a.contains(m) ==> part_of(p, m) == 0
            &&& b.contains(m) ==> part_of(p, m) == 1
            &&& c.contains(m) ==> part_of(p, m) == 2
            &&& d.contains(m) ==> part_of(p, m) == 3
            &&& e.contains(m) ==> part_of(p, m) == 4
            &&& captures_from(p, PieceType::King, p.king_square(p.side)).contains(m) ==> part_of(
                p,
                m,
            ) == 5
            &&& (a + b).contains(m) ==> part_of(p, m) < 2
            &&& (a + b + c).contains(m) ==> part_of(p, m) < 3
            &&& (a + b + c + d).contains(m) ==> part_of(p, m) < 4
            &&& (a + b + c + d + e).contains(m) ==> part_of(p, m) < 5
        }),
{
    sound_facts(p);
    pawn_moves_contains(p, m);
    pawn_captures_contains(p, m);
    piece_moves_contains(p, PieceType::Knight, m);
    piece_moves_contains(p, PieceType::Bishop, m);
    piece_moves_contains(p, PieceType::Rook, m);
    piece_moves_contains(p, PieceType::Queen, m);
    king_moves_contains(p, m);
    castling_moves_contains(p, m);
    piece_code_roundtrip(p.side, PieceType::Pawn, 0);
    let a = pawn_moves(p);
    let b = piece_moves(p, PieceType::Knight);
    let c = piece_moves(p, PieceType::Bishop);
    let d = piece_moves(p, PieceType::Rook);
    let e = piece_moves(p, PieceType::Queen);
    concat_contains(a, b, m);
    concat_contains(a + b, c, m);
    concat_contains(a + b + c, d, m);
    concat_contains(a + b + c + d, e, m);
    concat_contains(a + b + c + d + e, moves_from(p, PieceType::King, p.king_square(p.side)), m);
    let v = pawn_captures(p);
    let w = piece_captures(p, PieceType::Knight);
    let x = piece_captures(p, PieceType::Bishop);
    let y = piece_captures(p, PieceType::Rook);
    concat_contains(v, w, m);
    concat_contains(v + w, x, m);
    concat_contains(v + w + x, y, m);
    concat_contains(v + w + x + y, piece_captures(p, PieceType::Queen), m);
}

/// No move stands twice in the list of captures.
#[verifier::rlimit(30)]
pub proof fn capture_moves_once(p: Position)
    requires
        playable(p),
    ensures
        capture_moves(p).no_duplicates(),
{
    sound_facts(p);
    reveal(capture_moves);
    king_stands(p, p.side);
    let a = pawn_captures(p);
    let b = piece_captures(p, PieceType::Knight);
    let c = piece_captures(p, PieceType::Bishop);
    let d = piece_captures(p, PieceType::Rook);
    let e = piece_captures(p, PieceType::Queen);
    let k = captures_from(p, PieceType::King, p.king_square(p.side));
    pawn_captures_once(p);
    piece_moves_once(p, PieceType::Knight);
    piece_moves_once(p, PieceType::Bishop);
    piece_moves_once(p, PieceType::Rook);
    piece_moves_once(p, PieceType::Queen);
    moves_from_once(p, PieceType::King, p.king_square(p.side));
    assert forall|m: Move| !(#[trigger] a.contains(m) && b.contains(m)) by {
        listed(p, m);
    }
    joined_once(a, b);
    assert forall|m: Move| !(#[trigger] (a + b).contains(m) && c.contains(m)) by {
        listed(p, m);
    }
    joined_once(a + b, c);
    assert forall|m: Move| !(#[trigger] (a + b + c).contains(m) && d.contains(m)) by {
        listed(p, m);
    }
    joined_once(a + b + c, d);
    assert forall|m: Move| !(#[trigger] (a + b + c + d).contains(m) && e.contains(m)) by {
        listed(p, m);
    }
    joined_once(a + b + c + d, e);
    assert forall|m: Move| !(#[trigger] (a + b + c + d + e).contains(m) && k.contains(m)) by {
        listed(p, m);
    }
    joined_once(a + b + c + d + e, k);
}

proof fn keep_safe_once(p: Position, l: Seq<Move>)
    requires
        l.no_duplicates(),
    ensures
        keep_safe(p, l).no_duplicates(),
    decreases l.len(),
{
    if l.len() > 0 {
        let a = l.drop_last();
        keep_safe_once(p, a);
        let k = keep_safe(p, a);
        keep_safe_contains(p, a, l.last());
        assert(!a.contains(l.last()));
        assert(!k.contains(l.last()));
    }
}

/// No move stands twice in the list of legal moves.
pub proof fn legal_moves_once(p: Position)
    requires
        playable(p),
    ensures
        legal_moves(p).no_duplicates(),
{
    all_moves_once(p);
    keep_safe_once(p, all_moves(p));
}

// ---- Pieces on the board ----
/// How many of the first `n` squares are occupied.
pub open spec fn standing(m: Seq<u8>, n: int) -> int
    decreases n,
{
    if n <= 0 {
        0
    } else {
        standing(m, n - 1) + if m[n - 1] != 12 {
            1int
        } else {
            0
        }
    }
}

/// How many of the first `n` squares belong to a set.
spec fn members(bb: u64, n: int) -> int
    decreases n,
{
    if n <= 0 {
        0
    } else {
        members(bb, n - 1) + if member(bb, n - 1) {
            1int
        } else {
            0
        }
    }
}

/// Taking the lowest square away takes one square away.
proof fn members_of_rest(bb: u64, n: int)
    requires
        bb != 0,
        0 <= n <= 64,
    ensures
        members(rest(bb), n) == members(bb, n) - if n > lowest(bb) {
            1int
        } else {
            0
        },
    decreases n,
{
    rest_facts(bb);
    lowest_facts(bb);
    if n > 0 {
        members_of_rest(bb, n - 1);
        assert(member(rest(bb), n - 1) == (member(bb, n - 1) && n - 1 != lowest(bb)));
    }
}

proof fn no_members(n: int)
    requires
        0 <= n <= 64,
    ensures
        members(0, n) == 0,
    decreases n,
{
    empty_set(0);
    if n > 0 {
        no_members(n - 1);
        assert(!member(0, n - 1));
    }
}

/// The list of a set's squares is as long as the set is large.
proof fn squares_are_members(bb: u64)
    ensures
        squares(bb).len() == members(bb, 64),
    decreases bb,
{
    if bb == 0 {
        no_members(64);
    } else {
        rest_facts(bb);
        lowest_facts(bb);
        members_of_rest(bb, 64);
        squares_are_members(rest(bb));
    }
}

proof fn members_stand(p: Position, n: int)
    requires
        p.wf_boards(),
        0 <= n <= 64,
    ensures
        members(occupied(p), n) == standing(p.mailbox@, n),
    decreases n,
{
    board_sets(p);
    if n > 0 {
        members_stand(p, n - 1);
        assert(member(occupied(p), n - 1) == (p.mailbox@[n - 1] != 12));
    }
}

/// The pieces of a position are the occupied squares of its board.
pub proof fn pieces_stand(p: Position)
    requires
        p.wf_boards(),
    ensures
        piece_count(p) == standing(p.mailbox@, 64),
{
    squares_are_members(occupied(p));
    members_stand(p, 64);
}

/// What a change of one square does to the number of occupied squares.
proof fn standing_update(m: Seq<u8>, s: int, v: u8, n: int)
    requires
        0 <= n <= m.len(),
        0 <= s < m.len(),
    ensures
        standing(m.update(s, v), n) == standing(m, n) + if s < n {
            (if v != 12 {
                1int
            } else {
                0
            }) - (if m[s] != 12 {
                1int
            } else {
                0
            })
        } else {
            0
        },
    decreases n,
{
    if n > 0 {
        standing_update(m, s, v, n - 1);
    }
}

/// A capture takes exactly one piece off the board. Any other move leaves the number
/// of pieces as it was.
#[verifier::rlimit(30)]
pub proof fn captures_take_one(p: Position, mv: Move, q: Position, u: UndoInfo)
    requires
        playable(p),
        pseudo_legal(p, mv),
        made(p, mv, q, u),
    ensures
        piece_count(q) == piece_count(p) - if mv.captures() {
            1int
        } else {
            0
        },
{
    sound_facts(p);
    pieces_stand(p);
    pieces_stand(q);
    reveal(pseudo_legal);
    reveal(moved);
    move_parts_roundtrip(mv);
    flip_is_involution(p.side);
    board_sets(p);
    let m = p.mailbox@;
    let f = mv.src();
    let t = mv.dst();
    let h = home(p.side);
    if mv.flag() == 2 {
        let a = m.update(f, 12);
        let b = a.update(t, m[f]);
        let c = b.update(h + 7, 12);
        standing_update(m, f, 12, 64);
        standing_update(a, t, m[f], 64);
        standing_update(b, h + 7, 12, 64);
        standing_update(c, h + 5, m[h + 7], 64);
    } else if mv.flag() == 3 {
        let a = m.update(f, 12);
        let b = a.update(t, m[f]);
        let c = b.update(h, 12);
        standing_update(m, f, 12, 64);
        standing_update(a, t, m[f], 64);
        standing_update(b, h, 12, 64);
        standing_update(c, h + 3, m[h], 64);
    } else if mv.flag() == 5 {
        let b = behind(p.side, t);
        let a = m.update(b, 12);
        let c = a.update(f, 12);
        standing_update(m, b, 12, 64);
        standing_update(a, f, 12, 64);
        standing_update(c, t, m[f], 64);
    } else {
        let a = m.update(f, 12);
        let v = q.mailbox@[t];
        standing_update(m, f, 12, 64);
        standing_update(a, t, v, 64);
        assert(q.mailbox@ =~= a.update(t, v));
    }
}

} // verus!
