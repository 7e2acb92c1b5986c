//! Positions: board representation with make and unmake.

use crate::attacks::{attacked, is_attacked};
use crate::bitboard::{bit, group_bits, lowest, lsb, member, popcount, same_squares, squares};
pub use crate::fen::STARTPOS_FEN;
use crate::types::{
    castling_mask, castling_mask_of, color_of, file_of, make_piece, on_board, piece_code,
    piece_color, piece_type, type_of, CastlingRights, Color, Move, PieceType, Square, UndoInfo,
    EMPTY, NO_SQ,
};
use crate::zobrist::{
    castling_key, ep_key, ep_square_key, piece_key, piece_square_key, rights_key, side_key,
    turn_key,
};
use vstd::prelude::*;

verus! {

/// A chess position. The bitboards and the mailbox describe the same board.
pub struct Position {
    pub pieces: [u64; 6],
    pub colors: [u64; 2],
    pub mailbox: [u8; 64],
    pub side: Color,
    pub castling: CastlingRights,
    pub ep_square: Square,
    pub halfmove_clock: u16,
    pub fullmove: u16,
    pub hash: u64,
    pub pawn_hash: u64,
}

// ---- The model: a board is the sequence of its 64 mailbox codes ----
/// The bitboards describe the board of the mailbox.
#[verifier::opaque]
pub open spec fn agree(pieces: Seq<u64>, colors: Seq<u64>, m: Seq<u8>) -> bool {
    &&& pieces.len() == 6
    &&& colors.len() == 2
    &&& m.len() == 64
    &&& forall|s: int| 0 <= s < 64 ==> #[trigger] m[s] <= 12
    &&& forall|t: int, s: int|
        0 <= t < 6 && 0 <= s < 64 ==> #[trigger] member(pieces[t], s) == (m[s] < 12 && m[s] as int
            % 6 == t)
    &&& forall|c: int, s: int|
        0 <= c < 2 && 0 <= s < 64 ==> #[trigger] member(colors[c], s) == (m[s] < 12 && m[s] as int
            / 6 == c)
}

/// The hash of the pieces on the first `n` squares.
pub open spec fn board_hash(m: Seq<u8>, n: int) -> u64
    decreases n,
{
    if n <= 0 {
        0
    } else {
        board_hash(m, n - 1) ^ piece_square_key(m[n - 1] as int, n - 1)
    }
}

/// The key of a pawn on a square; anything else has the key 0.
pub open spec fn pawn_key(p: int, s: int) -> u64 {
    if p % 6 == 0 {
        piece_square_key(p, s)
    } else {
        0
    }
}

/// The hash of the pawns on the first `n` squares.
pub open spec fn pawn_board_hash(m: Seq<u8>, n: int) -> u64
    decreases n,
{
    if n <= 0 {
        0
    } else {
        pawn_board_hash(m, n - 1) ^ pawn_key(m[n - 1] as int, n - 1)
    }
}

/// A piece of this colour stands on the square.
pub open spec fn owned(m: Seq<u8>, s: int, c: Color) -> bool {
    m[s] < 12 && color_of(m[s] as int) == c
}

/// The corner square a1 or a8 of the side's home rank.
pub open spec fn home(c: Color) -> int {
    match c {
        Color::White => 0,
        Color::Black => 56,
    }
}

/// The square behind `t`, as seen from the side that moves.
pub open spec fn behind(c: Color, t: int) -> int {
    match c {
        Color::White => t - 8,
        Color::Black => t + 8,
    }
}

/// The move can be carried out on this board: what its flags say of the squares
/// that it touches is true of them.
#[verifier::opaque]
pub open spec fn fits(m: Seq<u8>, us: Color, mv: Move) -> bool {
    let f = mv.src();
    let t = mv.dst();
    let h = home(us);
    if mv.flag() == 0 {
        owned(m, f, us) && m[t] == 12
    } else if mv.flag() == 1 {
        owned(m, f, us) && m[t] == 12 && on_board(behind(us, t))
    } else if mv.flag() == 2 {
        f == h + 4 && t == h + 6 && m[h + 4] == piece_code(us, PieceType::King) && m[h + 7]
            == piece_code(us, PieceType::Rook) && m[h + 5] == 12 && m[h + 6] == 12
    } else if mv.flag() == 3 {
        f == h + 4 && t == h + 2 && m[h + 4] == piece_code(us, PieceType::King) && m[h]
            == piece_code(us, PieceType::Rook) && m[h + 2] == 12 && m[h + 3] == 12
    } else if mv.flag() == 4 {
        owned(m, f, us) && owned(m, t, us.other())
    } else if mv.flag() == 5 {
        &&& m[f] == piece_code(us, PieceType::Pawn)
        &&& m[t] == 12
        &&& on_board(behind(us, t))
        &&& m[behind(us, t)] == piece_code(us.other(), PieceType::Pawn)
    } else if mv.flag() >= 12 {
        m[f] == piece_code(us, PieceType::Pawn) && owned(m, t, us.other())
    } else if mv.flag() >= 8 {
        m[f] == piece_code(us, PieceType::Pawn) && m[t] == 12
    } else {
        true
    }
}

/// The board after a move.
#[verifier::opaque]
pub open spec fn moved(m: Seq<u8>, us: Color, mv: Move) -> Seq<u8> {
    let f = mv.src();
    let t = mv.dst();
    let h = home(us);
    if mv.flag() == 2 {
        m.update(f, EMPTY).update(t, m[f]).update(h + 7, EMPTY).update(h + 5, m[h + 7])
    } else if mv.flag() == 3 {
        m.update(f, EMPTY).update(t, m[f]).update(h, EMPTY).update(h + 3, m[h])
    } else if mv.flag() == 5 {
        m.update(behind(us, t), EMPTY).update(f, EMPTY).update(t, m[f])
    } else if mv.flag() >= 8 {
        m.update(f, EMPTY).update(t, piece_code(us, mv.promo_type()) as u8)
    } else if mv.flag() == 6 || mv.flag() == 7 {
        m
    } else {
        m.update(f, EMPTY).update(t, m[f])
    }
}

/// The castling rights after a move from `f` to `t`.
pub open spec fn rights_after(r: u8, f: int, t: int) -> u8 {
    r & (castling_mask(f) & castling_mask(t))
}

/// The en passant square after a move: the square that a pawn jumped over.
pub open spec fn ep_after(us: Color, mv: Move) -> int {
    if mv.flag() == 1 {
        behind(us, mv.dst())
    } else {
        64
    }
}

/// The halfmove clock after a move: pawn moves and captures reset it.
pub open spec fn clock_after(m: Seq<u8>, clock: int, mv: Move) -> int {
    if type_of(m[mv.src()] as int) == PieceType::Pawn || mv.flag() == 4 || mv.flag() == 5
        || mv.flag() >= 12 {
        0
    } else {
        clock + 1
    }
}

impl Position {
    pub open spec fn wf_boards(&self) -> bool {
        agree(self.pieces@, self.colors@, self.mailbox@)
    }

    /// The part of the hash that does not come from the pieces.
    pub open spec fn hash_extra(&self) -> u64 {
        self.hash ^ board_hash(self.mailbox@, 64)
    }

    pub open spec fn pawn_hash_extra(&self) -> u64 {
        self.pawn_hash ^ pawn_board_hash(self.mailbox@, 64)
    }

    /// The hash of the state besides the pieces: side to move, rights, en passant.
    pub open spec fn state_hash(&self) -> u64 {
        turn_key(self.side) ^ rights_key(self.castling.0 as int) ^ ep_square_key(
            self.ep_square as int,
        )
    }

    /// The position is consistent: bitboards and mailbox agree, and both hashes
    /// are what a computation from scratch gives.
    pub open spec fn wf(&self) -> bool {
        &&& self.wf_boards()
        &&& self.castling.0 < 16
        &&& self.ep_square <= 64
        &&& self.hash == board_hash(self.mailbox@, 64) ^ self.state_hash()
        &&& self.pawn_hash == pawn_board_hash(self.mailbox@, 64)
    }

    /// The clocks can be counted up `n` times.
    pub open spec fn clock_room(&self, n: int) -> bool {
        self.halfmove_clock + n <= 65535 && self.fullmove + n <= 65535
    }
}

/// Position `p` is what making the move in `q` gives, and `u` remembers of `q`
/// what the move overwrites.
pub open spec fn made(q: Position, mv: Move, p: Position, u: UndoInfo) -> bool {
    &&& q.wf()
    &&& fits(q.mailbox@, q.side, mv)
    &&& p.wf()
    &&& p.mailbox@ == moved(q.mailbox@, q.side, mv)
    &&& p.side == q.side.other()
    &&& p.castling.0 == rights_after(q.castling.0, mv.src(), mv.dst())
    &&& p.ep_square == ep_after(q.side, mv)
    &&& p.halfmove_clock == clock_after(q.mailbox@, q.halfmove_clock as int, mv)
    &&& p.fullmove == q.fullmove + q.side.num()
    &&& u.captured == q.mailbox@[mv.dst()]
    &&& u.castling == q.castling
    &&& u.ep_square == q.ep_square
    &&& u.halfmove_clock == q.halfmove_clock
    &&& u.hash == q.hash
    &&& u.pawn_hash == q.pawn_hash
}

/// The move leads from `q` to `p`.
pub open spec fn leads_to(q: Position, mv: Move, p: Position) -> bool {
    exists|u: UndoInfo| #[trigger] made(q, mv, p, u)
}

/// The position after a move.
pub open spec fn after(q: Position, mv: Move) -> Position {
    choose|p: Position| #[trigger] leads_to(q, mv, p)
}

/// A move leads to one position only.
pub proof fn after_unique(q: Position, mv: Move, p: Position, u: UndoInfo)
    requires
        made(q, mv, p, u),
    ensures
        p == after(q, mv),
{
    let p2 = after(q, mv);
    assert(leads_to(q, mv, p));
    assert(leads_to(q, mv, p2));
    let u2 = choose|u2: UndoInfo| #[trigger] made(q, mv, p2, u2);
    position_unique(p, p2);
}

// ---- Lemmas on hashes ----
proof fn xor_steps(h: u64, a: u64, b: u64, c: u64)
    by (bit_vector)
    ensures
        (h ^ a) ^ a ^ b == h ^ b,
        (h ^ a ^ b) ^ c == (h ^ c) ^ a ^ b,
        h ^ 0 == h,
        h ^ a ^ a == h,
        (h ^ c) ^ (a ^ c) == h ^ a,
        (h ^ (b ^ c)) ^ (a ^ b ^ c) == h ^ a,
        (h ^ a) == b ==> h == a ^ b,
        (h ^ a) == 0 ==> h == a,
        (a ^ b) ^ a == b,
{
}

/// Exchanging what stands on one square exchanges its key in the hash.
proof fn board_hash_update(m: Seq<u8>, n: int, s: int, p: u8)
    requires
        0 <= s < 64,
        m.len() == 64,
        0 <= n <= 64,
    ensures
        s < n ==> board_hash(m.update(s, p), n) == board_hash(m, n) ^ piece_square_key(
            m[s] as int,
            s,
        ) ^ piece_square_key(p as int, s),
        s >= n ==> board_hash(m.update(s, p), n) == board_hash(m, n),
    decreases n,
{
    if n > 0 {
        board_hash_update(m, n - 1, s, p);
        xor_steps(
            board_hash(m, n - 1),
            piece_square_key(m[s] as int, s),
            piece_square_key(p as int, s),
            piece_square_key(m[n - 1] as int, n - 1),
        );
    }
}

proof fn pawn_board_hash_update(m: Seq<u8>, n: int, s: int, p: u8)
    requires
        0 <= s < 64,
        m.len() == 64,
        0 <= n <= 64,
    ensures
        s < n ==> pawn_board_hash(m.update(s, p), n) == pawn_board_hash(m, n) ^ pawn_key(
            m[s] as int,
            s,
        ) ^ pawn_key(p as int, s),
        s >= n ==> pawn_board_hash(m.update(s, p), n) == pawn_board_hash(m, n),
    decreases n,
{
    if n > 0 {
        pawn_board_hash_update(m, n - 1, s, p);
        xor_steps(
            pawn_board_hash(m, n - 1),
            pawn_key(m[s] as int, s),
            pawn_key(p as int, s),
            pawn_key(m[n - 1] as int, n - 1),
        );
    }
}

/// The hashes of the board after one square changed.
proof fn hashes_update(m: Seq<u8>, s: int, p: u8)
    requires
        0 <= s < 64,
        m.len() == 64,
    ensures
        board_hash(m.update(s, p), 64) == board_hash(m, 64) ^ piece_square_key(m[s] as int, s)
            ^ piece_square_key(p as int, s),
        pawn_board_hash(m.update(s, p), 64) == pawn_board_hash(m, 64) ^ pawn_key(m[s] as int, s)
            ^ pawn_key(p as int, s),
{
    board_hash_update(m, 64, s, p);
    pawn_board_hash_update(m, 64, s, p);
}

/// Bitboards that describe the same board are equal.
proof fn boards_unique(p1: Seq<u64>, c1: Seq<u64>, p2: Seq<u64>, c2: Seq<u64>, m: Seq<u8>)
    requires
        agree(p1, c1, m),
        agree(p2, c2, m),
    ensures
        p1 == p2,
        c1 == c2,
{
    reveal(agree);
    assert forall|t: int| 0 <= t < 6 implies p1[t] == p2[t] by {
        assert forall|s: int| 0 <= s < 64 implies #[trigger] member(p1[t], s) == member(
            p2[t],
            s,
        ) by {}
        same_squares(p1[t], p2[t]);
    }
    assert forall|c: int| 0 <= c < 2 implies c1[c] == c2[c] by {
        assert forall|s: int| 0 <= s < 64 implies #[trigger] member(c1[c], s) == member(
            c2[c],
            s,
        ) by {}
        same_squares(c1[c], c2[c]);
    }
    assert(p1 =~= p2);
    assert(c1 =~= c2);
}

/// Mailbox codes are at most that of the empty square.
pub proof fn codes_bounded(p: Position)
    requires
        p.wf_boards(),
    ensures
        forall|s: int| 0 <= s < 64 ==> #[trigger] p.mailbox@[s] <= 12,
{
    reveal(agree);
}

/// Positions with the same board, state and hashes are equal.
pub proof fn position_unique(a: Position, b: Position)
    requires
        a.wf_boards(),
        b.wf_boards(),
        a.mailbox@ == b.mailbox@,
        a.side == b.side,
        a.castling == b.castling,
        a.ep_square == b.ep_square,
        a.halfmove_clock == b.halfmove_clock,
        a.fullmove == b.fullmove,
        a.hash == b.hash,
        a.pawn_hash == b.pawn_hash,
    ensures
        a == b,
{
    boards_unique(a.pieces@, a.colors@, b.pieces@, b.colors@, a.mailbox@);
    assert(a.pieces =~= b.pieces);
    assert(a.colors =~= b.colors);
    assert(a.mailbox =~= b.mailbox);
}

impl Position {
    /// A position with an empty board.
    pub fn new() -> (p: Position)
        ensures
            p.wf_boards(),
            forall|s: int| 0 <= s < 64 ==> #[trigger] p.mailbox@[s] == EMPTY,
            p.side == Color::White,
            p.castling.0 == 0,
            p.ep_square == NO_SQ,
            p.halfmove_clock == 0,
            p.fullmove == 1,
            p.hash == 0,
            p.pawn_hash == 0,
            board_hash(p.mailbox@, 64) == 0,
            pawn_board_hash(p.mailbox@, 64) == 0,
    {
        broadcast use group_bits;

        reveal(agree);

        let p: Position = Position {
            pieces: [0;6],
            colors: [0;2],
            mailbox: [EMPTY;64],
            side: Color::White,
            castling: CastlingRights::none(),
            ep_square: NO_SQ,
            halfmove_clock: 0,
            fullmove: 1,
            hash: 0,
            pawn_hash: 0,
        };
        proof {
            empty_board_hash(p.mailbox@, 64);
        }
        p
    }

    /// Puts a piece on a square. On a consistent board with an empty square the
    /// board stays consistent, and the hashes keep what does not come from pieces.
    pub(crate) fn put_piece(&mut self, color: Color, pt: PieceType, sq: Square)
        requires
            sq < 64,
            pt != PieceType::NoType,
        ensures
            final(self).mailbox@ == old(self).mailbox@.update(
                sq as int,
                piece_code(color, pt) as u8,
            ),
            final(self).same_state(*old(self)),
            old(self).wf_boards() && old(self).mailbox@[sq as int] == 12 ==> final(self).wf_boards()
                && final(self).hash_extra() == old(self).hash_extra()
                && final(self).pawn_hash_extra() == old(self).pawn_hash_extra(),
    {
        broadcast use group_bits;

        reveal(agree);

        let bb: u64 = bit(sq);
        let key: u64 = piece_key(color, pt, sq);
        self.pieces[pt.index()] |= bb;
        self.colors[color.index()] |= bb;
        self.mailbox[sq as usize] = make_piece(color, pt);
        self.hash = self.hash ^ key;
        if pt == PieceType::Pawn {
            self.pawn_hash = self.pawn_hash ^ key;
        }
        proof {
            let m = old(self).mailbox@;
            let p = piece_code(color, pt) as u8;
            hashes_update(m, sq as int, p);
            xor_steps(old(self).hash, board_hash(m, 64), 0, key);
            xor_steps(board_hash(m, 64), 0, 0, 0);
            xor_steps(old(self).pawn_hash, pawn_board_hash(m, 64), 0, key);
            xor_steps(pawn_board_hash(m, 64), 0, 0, 0);
        }
    }

    /// Takes the piece away that stands on a square.
    fn remove_piece(&mut self, sq: Square)
        requires
            sq < 64,
            old(self).wf_boards(),
            old(self).mailbox@[sq as int] < 12,
        ensures
            final(self).wf_boards(),
            final(self).mailbox@ == old(self).mailbox@.update(sq as int, EMPTY),
            final(self).same_state(*old(self)),
            final(self).hash_extra() == old(self).hash_extra(),
            final(self).pawn_hash_extra() == old(self).pawn_hash_extra(),
    {
        let piece: u8 = self.mailbox[sq as usize];
        let key: u64 = piece_key(piece_color(piece), piece_type(piece), sq);
        self.remove_piece_raw(sq);
        self.hash = self.hash ^ key;
        if piece_type(piece) == PieceType::Pawn {
            self.pawn_hash = self.pawn_hash ^ key;
        }
        proof {
            let m = old(self).mailbox@;
            hashes_update(m, sq as int, EMPTY);
            xor_steps(old(self).hash, board_hash(m, 64), 0, key);
            xor_steps(board_hash(m, 64) ^ key, 0, 0, 0);
            xor_steps(old(self).pawn_hash, pawn_board_hash(m, 64), 0, key);
            xor_steps(pawn_board_hash(m, 64) ^ key, 0, 0, 0);
            xor_steps(pawn_board_hash(m, 64), 0, 0, 0);
        }
    }

    /// Moves the piece on `from` to the empty square `to`.
    fn move_piece(&mut self, from: Square, to: Square)
        requires
            from < 64,
            to < 64,
            old(self).wf_boards(),
            old(self).mailbox@[from as int] < 12,
            old(self).mailbox@[to as int] == 12,
        ensures
            final(self).wf_boards(),
            final(self).mailbox@ == old(self).mailbox@.update(from as int, EMPTY).update(
                to as int,
                old(self).mailbox@[from as int],
            ),
            final(self).same_state(*old(self)),
            final(self).hash_extra() == old(self).hash_extra(),
            final(self).pawn_hash_extra() == old(self).pawn_hash_extra(),
    {
        broadcast use group_bits;

        reveal(agree);

        let piece: u8 = self.mailbox[from as usize];
        let color: Color = piece_color(piece);
        let pt: PieceType = piece_type(piece);
        let from_to: u64 = bit(from) | bit(to);
        let kf: u64 = piece_key(color, pt, from);
        let kt: u64 = piece_key(color, pt, to);
        self.pieces[pt.index()] ^= from_to;
        self.colors[color.index()] ^= from_to;
        self.mailbox[to as usize] = piece;
        self.mailbox[from as usize] = EMPTY;
        self.hash = self.hash ^ (kf ^ kt);
        if pt == PieceType::Pawn {
            self.pawn_hash = self.pawn_hash ^ (kf ^ kt);
        }
        proof {
            let m = old(self).mailbox@;
            let m1 = m.update(from as int, EMPTY);
            let b = board_hash(m, 64);
            let pb = pawn_board_hash(m, 64);
            assert(self.mailbox@ =~= m1.update(to as int, piece));
            hashes_update(m, from as int, EMPTY);
            hashes_update(m1, to as int, piece);
            xor_steps(b ^ kf, 0, 0, 0);
            xor_steps(pb ^ kf, 0, 0, 0);
            xor_steps(pb, 0, 0, 0);
            xor_steps(old(self).hash, b, kf, kt);
            xor_steps(old(self).pawn_hash, pb, kf, kt);
        }
    }

    /// Puts a piece on an empty square and leaves the hashes alone.
    fn raw_put(&mut self, color: Color, pt: PieceType, sq: Square, piece: u8)
        requires
            sq < 64,
            pt != PieceType::NoType,
            piece == piece_code(color, pt),
            old(self).wf_boards(),
            old(self).mailbox@[sq as int] == 12,
        ensures
            final(self).wf_boards(),
            final(self).mailbox@ == old(self).mailbox@.update(sq as int, piece),
            final(self).same_state(*old(self)),
            final(self).hash == old(self).hash,
            final(self).pawn_hash == old(self).pawn_hash,
    {
        broadcast use group_bits;

        reveal(agree);

        let bb: u64 = bit(sq);
        self.pieces[pt.index()] |= bb;
        self.colors[color.index()] |= bb;
        self.mailbox[sq as usize] = piece;
    }

    /// Takes a piece away and leaves the hashes alone.
    fn remove_piece_raw(&mut self, sq: Square)
        requires
            sq < 64,
            old(self).wf_boards(),
            old(self).mailbox@[sq as int] < 12,
        ensures
            final(self).wf_boards(),
            final(self).mailbox@ == old(self).mailbox@.update(sq as int, EMPTY),
            final(self).same_state(*old(self)),
            final(self).hash == old(self).hash,
            final(self).pawn_hash == old(self).pawn_hash,
    {
        broadcast use group_bits;

        reveal(agree);

        let piece: u8 = self.mailbox[sq as usize];
        let color: Color = piece_color(piece);
        let pt: PieceType = piece_type(piece);
        let bb: u64 = bit(sq);
        self.pieces[pt.index()] ^= bb;
        self.colors[color.index()] ^= bb;
        self.mailbox[sq as usize] = EMPTY;
    }

    /// Everything but the board and the hashes is the same.
    pub open spec fn same_state(&self, q: Position) -> bool {
        &&& self.side == q.side
        &&& self.castling == q.castling
        &&& self.ep_square == q.ep_square
        &&& self.halfmove_clock == q.halfmove_clock
        &&& self.fullmove == q.fullmove
    }
}

/// The board before a move, given the piece that the move captured.
#[verifier::opaque]
pub open spec fn unmoved(m: Seq<u8>, us: Color, mv: Move, captured: u8) -> Seq<u8> {
    let f = mv.src();
    let t = mv.dst();
    let h = home(us);
    let back = m.update(t, EMPTY).update(f, m[t]);
    if mv.flag() == 2 {
        back.update(h + 5, EMPTY).update(h + 7, m[h + 5])
    } else if mv.flag() == 3 {
        back.update(h + 3, EMPTY).update(h, m[h + 3])
    } else if mv.flag() == 4 {
        back.update(t, captured)
    } else if mv.flag() == 5 {
        back.update(behind(us, t), piece_code(us.other(), PieceType::Pawn) as u8)
    } else if mv.flag() >= 12 {
        m.update(t, EMPTY).update(f, piece_code(us, PieceType::Pawn) as u8).update(t, captured)
    } else if mv.flag() >= 8 {
        m.update(t, EMPTY).update(f, piece_code(us, PieceType::Pawn) as u8)
    } else if mv.flag() == 6 || mv.flag() == 7 {
        m
    } else {
        back
    }
}

/// Taking a move back gives the board on which it was made.
pub proof fn unmoved_moved(m: Seq<u8>, us: Color, mv: Move)
    requires
        m.len() == 64,
        fits(m, us, mv),
    ensures
        unmoved(moved(m, us, mv), us, mv, m[mv.dst()]) == m,
{
    reveal(moved);
    reveal(unmoved);
    reveal(fits);
    assert(unmoved(moved(m, us, mv), us, mv, m[mv.dst()]) =~= m);
}

proof fn xor_state(x: u64, t0: u64, r0: u64, e0: u64, r1: u64, e1: u64, k: u64, t1: u64)
    by (bit_vector)
    requires
        x == t0 ^ r0 ^ e0,
        t1 == t0 ^ k,
    ensures
        ((((x ^ e0) ^ r0) ^ r1) ^ e1) ^ k == t1 ^ r1 ^ e1,
        ((x ^ e0) ^ r0) ^ r0 == x ^ e0,
{
}

proof fn xor_turn(k: u64, h: u64, b: u64, e: u64)
    by (bit_vector)
    ensures
        k == 0 ^ k,
        0 == k ^ k,
        h ^ 0 == h,
        (h ^ e) ^ b == (h ^ b) ^ e,
        (b ^ h) ^ b == h,
        h ^ (b ^ h) == b,
        (h ^ b) == e ==> h == b ^ e,
{
}

proof fn rights_shrink(r: u8, a: u8, b: u8)
    by (bit_vector)
    requires
        r < 16,
    ensures
        r & (a & b) < 16,
{
}

impl Position {
    pub fn occupancy(&self) -> (bb: u64)
        ensures
            bb == self.colors@[0] | self.colors@[1],
    {
        self.colors[0] | self.colors[1]
    }

    pub fn us(&self) -> (bb: u64)
        ensures
            bb == self.colors@[self.side.num()],
    {
        self.colors[self.side.index()]
    }

    pub fn them(&self) -> (bb: u64)
        ensures
            bb == self.colors@[self.side.other().num()],
    {
        self.colors[self.side.flip().index()]
    }

    /// The lowest square with a king of this colour; 64 if there is none.
    pub open spec fn king_square(&self, c: Color) -> int {
        lowest(self.pieces@[5] & self.colors@[c.num()])
    }

    pub fn king_sq(&self, color: Color) -> (s: Square)
        ensures
            s == self.king_square(color),
            s <= 64,
    {
        lsb(self.pieces[PieceType::King.index()] & self.colors[color.index()])
    }

    /// The side to move has a king and the other side attacks it.
    pub open spec fn in_check(&self) -> bool {
        self.king_square(self.side) < 64 && attacked(
            self.pieces@,
            self.colors@,
            self.king_square(self.side),
            self.side.other(),
        )
    }

    pub fn is_in_check(&self) -> (b: bool)
        ensures
            b == self.in_check(),
    {
        let ksq: Square = self.king_sq(self.side);
        if ksq >= 64 {
            return false;
        }
        is_attacked(&self.pieces, &self.colors, ksq, self.side.flip())
    }

    /// The number of knights, bishops, rooks and queens of a colour.
    pub fn non_pawn_material(&self, color: Color) -> (n: u32)
        ensures
            n == squares(
                self.colors@[color.num()] & (self.pieces@[1] | self.pieces@[2] | self.pieces@[3]
                    | self.pieces@[4]),
            ).len(),
            n <= 64,
    {
        let own: u64 = self.colors[color.index()];
        popcount(own & (self.pieces[1] | self.pieces[2] | self.pieces[3] | self.pieces[4]))
    }

    /// The part of making a move that moves the pieces.
    #[verifier::rlimit(30)]
    fn apply(&mut self, mv: Move)
        requires
            old(self).wf_boards(),
            fits(old(self).mailbox@, old(self).side, mv),
            old(self).ep_square == 64,
        ensures
            final(self).wf_boards(),
            final(self).mailbox@ == moved(old(self).mailbox@, old(self).side, mv),
            final(self).hash_extra() == old(self).hash_extra(),
            final(self).pawn_hash_extra() == old(self).pawn_hash_extra(),
            final(self).side == old(self).side,
            final(self).castling == old(self).castling,
            final(self).fullmove == old(self).fullmove,
            final(self).ep_square == ep_after(old(self).side, mv),
            final(self).halfmove_clock == (if mv.flag() == 4 || mv.flag() == 5 || mv.flag() >= 12 {
                0
            } else {
                old(self).halfmove_clock as int
            }),
    {
        reveal(moved);
        reveal(fits);
        proof {
            codes_bounded(*self);
        }
        let from: Square = mv.from();
        let to: Square = mv.to();
        let flags: u16 = mv.flags();
        let us: Color = self.side;
        let ghost m = self.mailbox@;
        if flags == Move::FLAG_QUIET {
            self.move_piece(from, to);
        } else if flags == Move::FLAG_DOUBLE_PAWN {
            self.move_piece(from, to);
            self.ep_square = if us == Color::White {
                to - 8
            } else {
                to + 8
            };
        } else if flags == Move::FLAG_CAPTURE {
            self.halfmove_clock = 0;
            self.remove_piece(to);
            self.move_piece(from, to);
            assert(self.mailbox@ =~= moved(m, us, mv));
        } else if flags == Move::FLAG_EP {
            self.halfmove_clock = 0;
            let cap_sq: Square = if us == Color::White {
                to - 8
            } else {
                to + 8
            };
            self.remove_piece(cap_sq);
            self.move_piece(from, to);
        } else if flags == Move::FLAG_KING_CASTLE {
            self.move_piece(from, to);
            if us == Color::White {
                self.move_piece(7, 5);
            } else {
                self.move_piece(63, 61);
            }
        } else if flags == Move::FLAG_QUEEN_CASTLE {
            self.move_piece(from, to);
            if us == Color::White {
                self.move_piece(0, 3);
            } else {
                self.move_piece(56, 59);
            }
        } else if mv.is_promotion() {
            if mv.is_capture() {
                self.halfmove_clock = 0;
                self.remove_piece(to);
            }
            self.remove_piece(from);
            self.put_piece(us, mv.promo_piece_type(), to);
            assert(self.mailbox@ =~= moved(m, us, mv));
        }
    }

    /// The part of taking a move back that moves the pieces.
    #[verifier::rlimit(30)]
    fn retract(&mut self, mv: Move, captured: u8, Ghost(q): Ghost<Seq<u8>>)
        requires
            old(self).wf_boards(),
            q.len() == 64,
            forall|s: int| 0 <= s < 64 ==> #[trigger] q[s] <= 12,
            fits(q, old(self).side, mv),
            old(self).mailbox@ == moved(q, old(self).side, mv),
            captured == q[mv.dst()],
        ensures
            final(self).wf_boards(),
            final(self).mailbox@ == unmoved(old(self).mailbox@, old(self).side, mv, captured),
            final(self).same_state(*old(self)),
    {
        reveal(moved);
        reveal(unmoved);
        reveal(fits);
        let to: Square = mv.to();
        let from: Square = mv.from();
        let flags: u16 = mv.flags();
        let us: Color = self.side;
        let ghost m = self.mailbox@;
        if flags == Move::FLAG_QUIET || flags == Move::FLAG_DOUBLE_PAWN {
            self.move_piece(to, from);
        } else if flags == Move::FLAG_CAPTURE {
            self.move_piece(to, from);
            self.raw_put(
                piece_color(captured),
                piece_type(captured),
                to,
                captured,
            );
        } else if flags == Move::FLAG_EP {
            self.move_piece(to, from);
            let cap_sq: Square = if us == Color::White {
                to - 8
            } else {
                to + 8
            };
            let cap_piece: u8 = make_piece(us.flip(), PieceType::Pawn);
            self.raw_put(us.flip(), PieceType::Pawn, cap_sq, cap_piece);
        } else if flags == Move::FLAG_KING_CASTLE {
            self.move_piece(to, from);
            if us == Color::White {
                self.move_piece(5, 7);
            } else {
                self.move_piece(61, 63);
            }
        } else if flags == Move::FLAG_QUEEN_CASTLE {
            self.move_piece(to, from);
            if us == Color::White {
                self.move_piece(3, 0);
            } else {
                self.move_piece(59, 56);
            }
        } else if mv.is_promotion() {
            self.remove_piece_raw(to);
            self.raw_put(us, PieceType::Pawn, from, make_piece(us, PieceType::Pawn));
            if mv.is_capture() {
                self.raw_put(
                    piece_color(captured),
                    piece_type(captured),
                    to,
                    captured,
                );
            }
        }
        assert(self.mailbox@ =~= unmoved(m, us, mv, captured));
    }

    /// Makes a move.
    pub fn make_move(&mut self, mv: Move) -> (undo: UndoInfo)
        requires
            old(self).wf(),
            fits(old(self).mailbox@, old(self).side, mv),
            old(self).halfmove_clock < 65535,
            old(self).side == Color::Black ==> old(self).fullmove < 65535,
        ensures
            made(*old(self), mv, *final(self), undo),
            *final(self) == after(*old(self), mv),
    {
        reveal(fits);
        let from: Square = mv.from();
        let to: Square = mv.to();
        let us: Color = self.side;
        let ghost q = *self;
        let ghost m = self.mailbox@;
        let undo: UndoInfo = UndoInfo {
            captured: self.mailbox[to as usize],
            castling: self.castling,
            ep_square: self.ep_square,
            halfmove_clock: self.halfmove_clock,
            hash: self.hash,
            pawn_hash: self.pawn_hash,
        };
        let ghost x = self.hash_extra();
        let ghost e0 = ep_square_key(self.ep_square as int);
        let ghost r0 = rights_key(self.castling.0 as int);
        proof {
            xor_turn(0, self.state_hash(), board_hash(m, 64), 0);
            xor_turn(0, self.pawn_hash, pawn_board_hash(m, 64), 0);
            xor_turn(0, self.hash, board_hash(m, 64), e0);
            xor_turn(0, x, 0, 0);
            xor_steps(self.pawn_hash, 0, 0, 0);
            xor_steps(0, self.pawn_hash, 0, 0);
        }
        if self.ep_square != NO_SQ {
            self.hash = self.hash ^ ep_key(file_of(self.ep_square));
        }
        let old_castling: CastlingRights = self.castling;
        self.ep_square = NO_SQ;
        self.halfmove_clock = self.halfmove_clock + 1;
        let moving_piece: u8 = self.mailbox[from as usize];
        if piece_type(moving_piece) == PieceType::Pawn {
            self.halfmove_clock = 0;
        }
        assert(self.hash_extra() == x ^ e0);
        assert(self.pawn_hash_extra() == 0);
        self.apply(mv);
        assert(self.hash_extra() == x ^ e0);
        assert(self.pawn_hash_extra() == 0);
        let ghost b1 = board_hash(self.mailbox@, 64);
        let mask: u8 = castling_mask_of(from) & castling_mask_of(to);
        proof {
            rights_shrink(old_castling.0, castling_mask(from as int), castling_mask(to as int));
        }
        self.castling = CastlingRights(self.castling.0 & mask);
        let ghost r1 = rights_key(self.castling.0 as int);
        if self.castling.0 != old_castling.0 {
            let k0: u64 = castling_key(old_castling);
            let k1: u64 = castling_key(self.castling);
            proof {
                xor_turn(0, self.hash, b1, k0);
                xor_turn(0, self.hash ^ k0, b1, k1);
            }
            self.hash = self.hash ^ k0;
            self.hash = self.hash ^ k1;
        } else {
            proof {
                xor_steps(x ^ e0, r0, 0, 0);
            }
        }
        assert(self.hash_extra() == ((x ^ e0) ^ r0) ^ r1);
        let ghost e1 = ep_square_key(self.ep_square as int);
        proof {
            xor_turn(0, self.hash, b1, e1);
            xor_turn(0, ((x ^ e0) ^ r0) ^ r1, 0, 0);
        }
        if self.ep_square != NO_SQ {
            self.hash = self.hash ^ ep_key(file_of(self.ep_square));
        }
        assert(self.hash_extra() == (((x ^ e0) ^ r0) ^ r1) ^ e1);
        self.side = us.flip();
        let k: u64 = side_key();
        proof {
            xor_turn(k, self.hash, b1, k);
        }
        self.hash = self.hash ^ k;
        if us == Color::Black {
            self.fullmove = self.fullmove + 1;
        }
        proof {
            xor_state(x, turn_key(us), r0, e0, r1, e1, k, turn_key(self.side));
            xor_turn(0, self.hash, b1, self.state_hash());
            xor_steps(self.pawn_hash, pawn_board_hash(self.mailbox@, 64), 0, 0);
            after_unique(q, mv, *self, undo);
        }
        undo
    }

    /// Takes a move back: gives the position in which the move was made.
    pub fn unmake_move(&mut self, mv: Move, undo: UndoInfo)
        requires
            exists|q: Position| #[trigger] made(q, mv, *old(self), undo),
        ensures
            forall|q: Position| #[trigger] made(q, mv, *old(self), undo) ==> *final(self) == q,
    {
        let ghost p = *self;
        let ghost q0 = choose|q: Position| #[trigger] made(q, mv, *old(self), undo);
        self.side = self.side.flip();
        if self.side == Color::Black {
            self.fullmove = self.fullmove - 1;
        }
        proof {
            codes_bounded(q0);
        }
        self.retract(mv, undo.captured, Ghost(q0.mailbox@));
        self.castling = undo.castling;
        self.ep_square = undo.ep_square;
        self.halfmove_clock = undo.halfmove_clock;
        self.hash = undo.hash;
        self.pawn_hash = undo.pawn_hash;
        proof {
            assert forall|q: Position| #[trigger] made(q, mv, p, undo) implies *self == q by {
                restores(*self, p, mv, undo, q);
            }
        }
    }
}

/// A position with the board before the move and the remembered state is the
/// position in which the move was made.
proof fn restores(r: Position, p: Position, mv: Move, u: UndoInfo, q: Position)
    requires
        made(q, mv, p, u),
        r.wf_boards(),
        r.mailbox@ == unmoved(p.mailbox@, r.side, mv, u.captured),
        r.side == p.side.other(),
        r.fullmove == p.fullmove - r.side.num(),
        r.castling == u.castling,
        r.ep_square == u.ep_square,
        r.halfmove_clock == u.halfmove_clock,
        r.hash == u.hash,
        r.pawn_hash == u.pawn_hash,
    ensures
        r == q,
{
    unmoved_moved(q.mailbox@, q.side, mv);
    crate::types::flip_is_involution(q.side);
    position_unique(r, q);
}

impl Clone for Position {
    fn clone(&self) -> (p: Position)
        ensures
            p == *self,
    {
        let p: Position = Position {
            pieces: self.pieces,
            colors: self.colors,
            mailbox: self.mailbox,
            side: self.side,
            castling: self.castling,
            ep_square: self.ep_square,
            halfmove_clock: self.halfmove_clock,
            fullmove: self.fullmove,
            hash: self.hash,
            pawn_hash: self.pawn_hash,
        };
        p
    }
}

proof fn empty_board_hash(m: Seq<u8>, n: int)
    requires
        0 <= n <= 64,
        m.len() == 64,
        forall|s: int| 0 <= s < 64 ==> #[trigger] m[s] == EMPTY,
    ensures
        board_hash(m, n) == 0,
        pawn_board_hash(m, n) == 0,
    decreases n,
{
    if n > 0 {
        empty_board_hash(m, n - 1);
        xor_steps(0, 0, 0, 0);
    }
}

} // verus!
