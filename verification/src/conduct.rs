//! What a move does to a position, told square by square and clock by clock.

use crate::attacks::attacked;
use crate::board::{made, moved, rights_after, Position};
use crate::rules::{legal, pseudo_legal};
use crate::types::{castling_mask, piece_code, type_of, Color, Move, PieceType, UndoInfo};
use vstd::prelude::*;

verus! {

/// A move takes its piece from one square to another and leaves the rest of the board, as
/// long as it neither castles nor takes en passant. A promotion puts the new piece there.
pub proof fn pieces_go_where_they_move(m: Seq<u8>, us: Color, mv: Move, s: int)
    requires
        m.len() == 64,
        0 <= s < 64,
        mv.src() != mv.dst(),
        mv.flag() != 2 && mv.flag() != 3 && mv.flag() != 5 && mv.flag() != 6 && mv.flag() != 7,
    ensures
        moved(m, us, mv)[mv.src()] == 12,
        !mv.promotes() ==> moved(m, us, mv)[mv.dst()] == m[mv.src()],
        mv.promotes() ==> moved(m, us, mv)[mv.dst()] == piece_code(us, mv.promo_type()),
        s != mv.src() && s != mv.dst() ==> moved(m, us, mv)[s] == m[s],
{
    reveal(moved);
    crate::types::move_parts_roundtrip(mv);
}

/// Castling takes the king two squares towards the rook and puts the rook beside it, on
/// the other side; en passant takes the pawn beside the one that moves.
pub proof fn two_squares_change_twice(m: Seq<u8>, us: Color, mv: Move)
    requires
        m.len() == 64,
    ensures
        ({
            let q = moved(m, us, mv);
            let h = if us == Color::White {
                0int
            } else {
                56int
            };
            &&& mv.flag() == 2 && mv.src() == h + 4 && mv.dst() == h + 6 ==> q[h + 6] == m[h + 4]
                && q[h + 5] == m[h + 7] && q[h + 4] == 12 && q[h + 7] == 12
            &&& mv.flag() == 3 && mv.src() == h + 4 && mv.dst() == h + 2 ==> q[h + 2] == m[h + 4]
                && q[h + 3] == m[h] && q[h + 4] == 12 && q[h] == 12
            &&& mv.flag() == 5 && us == Color::White && 8 <= mv.dst() && mv.src() != mv.dst()
                && mv.src() != mv.dst() - 8 ==> q[mv.dst() - 8] == 12 && q[mv.dst()] == m[mv.src()]
                && q[mv.src()] == 12
            &&& mv.flag() == 5 && us == Color::Black && mv.dst() < 56 && mv.src() != mv.dst()
                && mv.src() != mv.dst() + 8 ==> q[mv.dst() + 8] == 12 && q[mv.dst()] == m[mv.src()]
                && q[mv.src()] == 12
        }),
{
    reveal(moved);
    crate::types::move_parts_roundtrip(mv);
}

/// A capture and a move of a pawn start the halfmove clock anew, any other move counts on;
/// the number of the move rises after Black's, and the turn passes.
pub proof fn clocks_count_moves(p: Position, mv: Move, q: Position, u: UndoInfo)
    requires
        made(p, mv, q, u),
        mv.flag() != 6 && mv.flag() != 7,
    ensures
        ({
            let pawn = type_of(p.mailbox@[mv.src()] as int) == PieceType::Pawn;
            &&& pawn || mv.captures() ==> q.halfmove_clock == 0
            &&& !pawn && !mv.captures() ==> q.halfmove_clock == p.halfmove_clock + 1
            &&& p.side == Color::White ==> q.fullmove == p.fullmove && q.side == Color::Black
            &&& p.side == Color::Black ==> q.fullmove == p.fullmove + 1 && q.side == Color::White
        }),
{
    crate::types::move_parts_roundtrip(mv);
}

/// The square that a pawn jumps over is remembered for one move, and no other is.
pub proof fn jumps_are_remembered(p: Position, mv: Move, q: Position, u: UndoInfo)
    requires
        made(p, mv, q, u),
    ensures
        mv.flag() == 1 && p.side == Color::White ==> q.ep_square == mv.dst() - 8,
        mv.flag() == 1 && p.side == Color::Black ==> q.ep_square == mv.dst() + 8,
        mv.flag() != 1 ==> q.ep_square == 64,
{
}

proof fn masked(r: u8, a: u8, b: u8)
    by (bit_vector)
    ensures
        (r & (a & b)) & 1 != 0 <==> r & 1 != 0 && a & 1 != 0 && b & 1 != 0,
        (r & (a & b)) & 2 != 0 <==> r & 2 != 0 && a & 2 != 0 && b & 2 != 0,
        (r & (a & b)) & 4 != 0 <==> r & 4 != 0 && a & 4 != 0 && b & 4 != 0,
        (r & (a & b)) & 8 != 0 <==> r & 8 != 0 && a & 8 != 0 && b & 8 != 0,
        253u8 & 1 != 0 && 253u8 & 2 == 0 && 253u8 & 4 != 0 && 253u8 & 8 != 0,
        252u8 & 1 == 0 && 252u8 & 2 == 0 && 252u8 & 4 != 0 && 252u8 & 8 != 0,
        254u8 & 1 == 0 && 254u8 & 2 != 0 && 254u8 & 4 != 0 && 254u8 & 8 != 0,
        247u8 & 1 != 0 && 247u8 & 2 != 0 && 247u8 & 4 != 0 && 247u8 & 8 == 0,
        243u8 & 1 != 0 && 243u8 & 2 != 0 && 243u8 & 4 == 0 && 243u8 & 8 == 0,
        251u8 & 1 != 0 && 251u8 & 2 != 0 && 251u8 & 4 == 0 && 251u8 & 8 != 0,
        255u8 & 1 != 0 && 255u8 & 2 != 0 && 255u8 & 4 != 0 && 255u8 & 8 != 0,
{
}

/// A castling right is lost once a move leaves or enters the first square of the king or
/// of the rook that it needs, and only then.
pub proof fn rights_are_lost(r: u8, f: int, t: int)
    requires
        0 <= f < 64,
        0 <= t < 64,
    ensures
        rights_after(r, f, t) & 1 != 0 <==> r & 1 != 0 && f != 4 && f != 7 && t != 4 && t != 7,
        rights_after(r, f, t) & 2 != 0 <==> r & 2 != 0 && f != 4 && f != 0 && t != 4 && t != 0,
        rights_after(r, f, t) & 4 != 0 <==> r & 4 != 0 && f != 60 && f != 63 && t != 60 && t != 63,
        rights_after(r, f, t) & 8 != 0 <==> r & 8 != 0 && f != 60 && f != 56 && t != 60 && t != 56,
{
    masked(r, castling_mask(f), castling_mask(t));
}

/// A side does not castle out of a check, nor through an attacked square or into one, and
/// only over empty squares and with the right to.
pub proof fn castling_is_safe(p: Position, mv: Move)
    requires
        p.wf_boards(),
        legal(p, mv),
        mv.flag() == 2 || mv.flag() == 3,
    ensures
        ({
            let h = if p.side == Color::White {
                0int
            } else {
                56int
            };
            let by = p.side.other();
            &&& mv.src() == h + 4
            &&& !attacked(p.pieces@, p.colors@, h + 4, by)
            &&& mv.flag() == 2 ==> mv.dst() == h + 6 && p.mailbox@[h + 5] == 12 && p.mailbox@[h + 6]
                == 12 && !attacked(p.pieces@, p.colors@, h + 5, by) && !attacked(
                p.pieces@,
                p.colors@,
                h + 6,
                by,
            )
            &&& mv.flag() == 3 ==> mv.dst() == h + 2 && p.mailbox@[h + 1] == 12 && p.mailbox@[h + 2]
                == 12 && p.mailbox@[h + 3] == 12 && !attacked(p.pieces@, p.colors@, h + 3, by)
                && !attacked(p.pieces@, p.colors@, h + 2, by)
        }),
{
    reveal(pseudo_legal);
    crate::rules::board_sets(p);
}

/// A legal move takes no piece of its own side, and moves a piece of its own.
pub proof fn moves_are_of_the_own_side(p: Position, mv: Move)
    requires
        p.wf_boards(),
        legal(p, mv),
        mv.flag() != 2 && mv.flag() != 3,
    ensures
        crate::board::owned(p.mailbox@, mv.src(), p.side),
        !crate::board::owned(p.mailbox@, mv.dst(), p.side) || mv.flag() == 5,
        mv.captures() && mv.flag() != 5 ==> crate::board::owned(
            p.mailbox@,
            mv.dst(),
            p.side.other(),
        ),
        !mv.captures() ==> p.mailbox@[mv.dst()] == 12,
{
    reveal(pseudo_legal);
    crate::types::move_parts_roundtrip(mv);
    crate::rules::board_sets(p);
}

} // verus!
