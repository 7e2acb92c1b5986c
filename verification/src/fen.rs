//! Positions as text: Forsyth-Edwards Notation, and moves in UCI notation.

use crate::attacks::{attacked, attacks_from, is_attacked};
use crate::bitboard::member;
use crate::board::{board_hash, codes_bounded, pawn_board_hash, Position};
use crate::movegen::generate_legal;
use crate::rules::{
    exposed, has_kings, king_found, king_stands, legal_moves, playable, rights_ok, sound,
};
use crate::text::{
    code_point, decimal, parse_unsigned, parsed_unsigned, push_decimal, spells, split_words, texts,
    words,
};
use crate::types::{
    chars_of, file_of, letter_piece, named_square, piece_char, piece_color, piece_from_char,
    piece_letter, piece_type, push_square_name, sq_from_chars, square_name, CastlingRights, Color,
    Move, MoveList, PieceType, Square, EMPTY, NO_SQ,
};
use crate::zobrist::{castling_key, ep_key, ep_square_key, rights_key, side_key, turn_key};
use vstd::prelude::*;

verus! {

/// The initial position.
pub const STARTPOS_FEN: &'static str = "rnbqkbnr/pppppppp/8/8/8/8/PPPPPPPP/RNBQKBNR w KQkq - 0 1";

/// The piece types of a back rank: rook, knight, bishop, queen, king, bishop,
/// knight, rook.
pub open spec fn back_rank(f: int) -> int {
    if f == 0 || f == 7 {
        3
    } else if f == 1 || f == 6 {
        1
    } else if f == 2 || f == 5 {
        2
    } else if f == 3 {
        4
    } else {
        5
    }
}

/// The mailbox code of a square in the initial position.
pub open spec fn start_code(s: int) -> int {
    if s < 8 {
        back_rank(s)
    } else if s < 16 {
        0
    } else if s < 48 {
        12
    } else if s < 56 {
        6
    } else {
        6 + back_rank(s - 56)
    }
}

/// The board of the initial position.
pub open spec fn start_board() -> Seq<u8> {
    Seq::new(64, |s: int| start_code(s) as u8)
}

fn start_piece(s: Square) -> (p: u8)
    requires
        s < 64,
    ensures
        p == start_code(s as int),
{
    let f: u8 = s % 8;
    let back: u8 = if f == 0 || f == 7 {
        3
    } else if f == 1 || f == 6 {
        1
    } else if f == 2 || f == 5 {
        2
    } else if f == 3 {
        4
    } else {
        5
    };
    if s < 8 {
        back
    } else if s < 16 {
        0
    } else if s < 48 {
        12
    } else if s < 56 {
        6
    } else {
        6 + back
    }
}

// ---- Piece placement ----
/// How far a placement character moves the current square.
pub open spec fn placement_step(c: char) -> int {
    if c == '/' {
        -16
    } else if '1' <= c <= '8' {
        c as int - 48
    } else {
        1
    }
}

/// A character of a piece placement: a rank end, a run of empty squares, a piece.
pub open spec fn placement_char(c: char) -> bool {
    c == '/' || '1' <= c <= '8' || letter_piece(c) is Some
}

/// The current square before character `n`; the placement starts at a8.
pub open spec fn placement_square(t: Seq<char>, n: int) -> int
    decreases n,
{
    if n <= 0 {
        56
    } else {
        placement_square(t, n - 1) + placement_step(t[n - 1])
    }
}

/// The board after the first `n` characters.
pub open spec fn placement_board(t: Seq<char>, n: int) -> Seq<u8>
    decreases n,
{
    if n <= 0 {
        Seq::new(64, |i: int| EMPTY)
    } else {
        match letter_piece(t[n - 1]) {
            Some(p) => placement_board(t, n - 1).update(placement_square(t, n - 1), p),
            None => placement_board(t, n - 1),
        }
    }
}

/// The first `n` characters are placement characters.
pub open spec fn placement_prefix(t: Seq<char>, n: int) -> bool {
    forall|i: int| 0 <= i < n ==> placement_char(#[trigger] t[i])
}

/// Before character `n` the current square is within bounds, and on the board if
/// a piece is placed there.
pub open spec fn placement_in_range(t: Seq<char>, n: int) -> bool {
    &&& -128 <= placement_square(t, n) <= 127
    &&& n < t.len() && letter_piece(t[n]) is Some ==> 0 <= placement_square(t, n) < 64
}

/// The placement stays on the board, up to the first character that is none.
pub open spec fn placement_fits(t: Seq<char>) -> bool {
    forall|n: int|
        0 <= n <= t.len() && #[trigger] placement_prefix(t, n) ==> placement_in_range(t, n)
}

/// No square is given two pieces.
pub open spec fn placement_distinct(t: Seq<char>) -> bool {
    forall|n: int|
        0 <= n < t.len() && letter_piece(#[trigger] t[n]) is Some ==> placement_board(
            t,
            n,
        )[placement_square(t, n)] == EMPTY
}

/// The castling rights that the first `n` characters name.
pub open spec fn named_rights(t: Seq<char>, n: int) -> u8
    decreases n,
{
    if n <= 0 {
        0
    } else {
        let r = named_rights(t, n - 1);
        let c = t[n - 1];
        if c == 'K' {
            r | 1
        } else if c == 'Q' {
            r | 2
        } else if c == 'k' {
            r | 4
        } else if c == 'q' {
            r | 8
        } else {
            r
        }
    }
}

/// The castling rights of a castling field.
pub open spec fn field_rights(t: Seq<char>) -> u8 {
    if t == "-"@ {
        0
    } else {
        named_rights(t, t.len() as int)
    }
}

/// The en passant square of an en passant field.
pub open spec fn field_ep(t: Seq<char>) -> u8 {
    if t == "-"@ {
        64
    } else {
        match named_square(t) {
            Some(s) => s,
            None => 64,
        }
    }
}

/// The number in field `i`, if the field is there and is a number.
pub open spec fn field_number(f: Seq<Seq<char>>, i: int, default: u16) -> u16 {
    if i < f.len() {
        match parsed_unsigned(f[i], 65535) {
            Some(n) => n as u16,
            None => default,
        }
    } else {
        default
    }
}

/// Position `p` is what the fields of a FEN describe.
pub open spec fn described(f: Seq<Seq<char>>, p: Position) -> bool {
    &&& p.mailbox@ == placement_board(f[0], f[0].len() as int)
    &&& p.side == (if f[1] == "w"@ {
        Color::White
    } else {
        Color::Black
    })
    &&& p.castling.0 == field_rights(f[2])
    &&& p.ep_square == field_ep(f[3])
    &&& p.halfmove_clock == field_number(f, 4, 0)
    &&& p.fullmove == field_number(f, 5, 1)
}

/// Reading these fields does not leave the board.
pub open spec fn fields_fit(f: Seq<Seq<char>>) -> bool {
    f.len() >= 4 ==> placement_fits(f[0])
}

/// Reading this text does not leave the board.
pub open spec fn fen_fits(t: Seq<char>) -> bool {
    fields_fit(words(t))
}

/// Why fields are no FEN.
pub open spec fn fields_error(f: Seq<Seq<char>>) -> Option<Seq<char>> {
    if f.len() < 4 {
        Some("FEN needs at least 4 fields"@)
    } else if !placement_prefix(f[0], f[0].len() as int) {
        Some("Invalid piece character"@)
    } else if f[1] != "w"@ && f[1] != "b"@ {
        Some("Invalid side to move"@)
    } else {
        None
    }
}

proof fn rights_or(r: u8, x: u8)
    by (bit_vector)
    requires
        r < 16,
        x < 16,
    ensures
        r | x < 16,
{
}

proof fn xor_parts(b: u64, t: u64, r: u64, e: u64)
    by (bit_vector)
    ensures
        0u64 ^ b == b,
        b ^ 0 == b,
        ((b ^ t) ^ r) ^ e == b ^ (t ^ r ^ e),
        (b ^ t) == 0 ==> b == t,
        b ^ b == 0,
{
}

/// The place of a character in a placement, as a number of squares.
fn step_of(c: char) -> (d: i16)
    ensures
        d == placement_step(c),
{
    let n: u32 = code_point(c);
    if c == '/' {
        -16
    } else if 49 <= n && n <= 56 {
        n as i16 - 48
    } else {
        1
    }
}

fn is_placement_char(c: char) -> (b: bool)
    ensures
        b == placement_char(c),
{
    let n: u32 = code_point(c);
    c == '/' || (49 <= n && n <= 56) || piece_from_char(c).is_some()
}

/// Tests whether a text can be read as a FEN without leaving the board.
pub fn fen_is_readable(fen: &str) -> (b: bool)
    ensures
        b == fen_fits(fen@),
{
    fields_are_readable(&split_words(&chars_of(fen)))
}

/// Tests whether fields can be read as a FEN without leaving the board.
pub fn fields_are_readable(parts: &Vec<Vec<char>>) -> (b: bool)
    ensures
        b == fields_fit(texts(parts@)),
{
    let ghost fields = texts(parts@);
    if parts.len() < 4 {
        return true;
    }
    let f: &Vec<char> = &parts[0];
    assert(f@ == fields[0]);
    let mut sq: i16 = 56;
    let mut i: usize = 0;
    while i < f.len()
        invariant
            i <= f@.len(),
            fields == texts(parts@),
            fields.len() >= 4,
            f@ == fields[0],
            sq == placement_square(f@, i as int),
            -128 <= sq <= 127,
            placement_prefix(f@, i as int),
            forall|n: int| 0 <= n < i ==> #[trigger] placement_in_range(f@, n),
        decreases f@.len() - i,
    {
        let c: char = f[i];
        if piece_from_char(c).is_some() && (sq < 0 || sq >= 64) {
            assert(!placement_in_range(f@, i as int));
            assert(!placement_fits(f@));
            return false;
        }
        if !is_placement_char(c) {
            proof {
                assert forall|n: int| 0 <= n <= f@.len() && #[trigger] placement_prefix(f@, n)
                    implies placement_in_range(f@, n) by {
                    if n > i {
                        assert(placement_char(f@[i as int]));
                    }
                }
            }
            return true;
        }
        let next: i16 = sq + step_of(c);
        assert(placement_prefix(f@, i as int + 1));
        if next < -128 || next > 127 {
            assert(!placement_in_range(f@, i as int + 1));
            return false;
        }
        sq = next;
        i = i + 1;
    }
    assert(placement_in_range(f@, i as int));
    assert forall|n: int| 0 <= n <= f@.len() && #[trigger] placement_prefix(f@, n) implies
        placement_in_range(f@, n) by {}
    true
}

/// Tests whether no square is given two pieces.
fn is_distinct(f: &Vec<char>) -> (b: bool)
    requires
        placement_fits(f@),
        placement_prefix(f@, f@.len() as int),
    ensures
        b == placement_distinct(f@),
{
    let mut board: [u8; 64] = [EMPTY; 64];
    let mut sq: i16 = 56;
    let mut i: usize = 0;
    assert(board@ =~= placement_board(f@, 0));
    while i < f.len()
        invariant
            i <= f@.len(),
            placement_fits(f@),
            placement_prefix(f@, f@.len() as int),
            sq == placement_square(f@, i as int),
            board@ == placement_board(f@, i as int),
            forall|n: int|
                0 <= n < i && letter_piece(#[trigger] f@[n]) is Some ==> placement_board(
                    f@,
                    n,
                )[placement_square(f@, n)] == EMPTY,
        decreases f@.len() - i,
    {
        let c: char = f[i];
        assert(placement_prefix(f@, i as int));
        assert(placement_in_range(f@, i as int));
        assert(placement_char(f@[i as int]));
        if let Some(p) = piece_from_char(c) {
            if board[sq as usize] != EMPTY {
                assert(letter_piece(f@[i as int]) is Some);
                return false;
            }
            board[sq as usize] = p;
        }
        sq = sq + step_of(c);
        i = i + 1;
        assert(board@ =~= placement_board(f@, i as int));
    }
    true
}

/// Tests whether fields that are read as a position give no square two pieces.
pub fn fields_are_distinct(parts: &Vec<Vec<char>>) -> (b: bool)
    requires
        fields_fit(texts(parts@)),
        fields_error(texts(parts@)) is None,
    ensures
        b == placement_distinct(texts(parts@)[0]),
{
    assert(texts(parts@)[0] == parts@[0]@);
    is_distinct(&parts[0])
}

impl Position {
    /// Places the pieces of a placement field. Fails at a character that is none.
    fn place(&mut self, f: &Vec<char>) -> (ok: bool)
        requires
            placement_fits(f@),
            old(self).wf_boards(),
            forall|s: int| 0 <= s < 64 ==> #[trigger] old(self).mailbox@[s] == EMPTY,
            old(self).hash_extra() == 0,
            old(self).pawn_hash_extra() == 0,
        ensures
            ok == placement_prefix(f@, f@.len() as int),
            final(self).same_state(*old(self)),
            ok ==> final(self).mailbox@ == placement_board(f@, f@.len() as int),
            ok && placement_distinct(f@) ==> final(self).wf_boards() && final(self).hash_extra()
                == 0 && final(self).pawn_hash_extra() == 0,
    {
        let mut sq: i16 = 56;
        let mut i: usize = 0;
        assert(self.mailbox@ =~= placement_board(f@, 0));
        while i < f.len()
            invariant
                i <= f@.len(),
                placement_fits(f@),
                placement_prefix(f@, i as int),
                sq == placement_square(f@, i as int),
                self.same_state(*old(self)),
                self.mailbox@ == placement_board(f@, i as int),
                placement_distinct(f@) ==> self.wf_boards() && self.hash_extra() == 0
                    && self.pawn_hash_extra() == 0,
            decreases f@.len() - i,
        {
            let c: char = f[i];
            assert(placement_in_range(f@, i as int));
            if !is_placement_char(c) {
                assert(!placement_char(f@[i as int]));
                return false;
            }
            match piece_from_char(c) {
                Some(piece) => {
                    self.put_piece(piece_color(piece), piece_type(piece), sq as u8);
                },
                None => {},
            }
            assert(placement_prefix(f@, i as int + 1));
            assert(placement_in_range(f@, i as int + 1));
            sq = sq + step_of(c);
            i = i + 1;
        }
        true
    }

    /// Reads a position from its FEN.
    pub fn from_fen(fen: &str) -> (r: Result<Position, &'static str>)
        requires
            fen_fits(fen@),
        ensures
            match r {
                Ok(p) => fields_error(words(fen@)) is None && described(words(fen@), p) && (
                placement_distinct(words(fen@)[0]) ==> p.wf()),
                Err(e) => fields_error(words(fen@)) == Some(e@),
            },
    {
        Self::from_fields(&split_words(&chars_of(fen)))
    }

    /// Reads a position from the fields of its FEN.
    pub fn from_fields(parts: &Vec<Vec<char>>) -> (r: Result<Position, &'static str>)
        requires
            fields_fit(texts(parts@)),
        ensures
            match r {
                Ok(p) => fields_error(texts(parts@)) is None && described(texts(parts@), p) && (
                placement_distinct(texts(parts@)[0]) ==> p.wf()),
                Err(e) => fields_error(texts(parts@)) == Some(e@),
            },
    {
        let ghost f = texts(parts@);
        assert forall|i: int| 0 <= i < f.len() implies #[trigger] parts@[i]@ == f[i] by {}
        if parts.len() < 4 {
            return Err("FEN needs at least 4 fields");
        }
        let mut pos: Position = Position::new();
        proof {
            xor_parts(0, 0, 0, 0);
        }
        if !pos.place(&parts[0]) {
            return Err("Invalid piece character");
        }
        let ghost distinct = placement_distinct(f[0]);
        let ghost b = board_hash(pos.mailbox@, 64);
        let ghost m = pos.mailbox@;
        let ghost h0 = pos.hash;
        proof {
            xor_parts(pos.hash, b, 0, 0);
            xor_parts(pos.pawn_hash, pawn_board_hash(m, 64), 0, 0);
        }
        let white: bool = spells(&parts[1], "w");
        if !white && !spells(&parts[1], "b") {
            return Err("Invalid side to move");
        }
        if !white {
            pos.side = Color::Black;
            pos.hash = pos.hash ^ side_key();
        }
        let ghost tk = turn_key(pos.side);
        proof {
            xor_parts(h0, tk, 0, 0);
        }
        assert(pos.hash == h0 ^ tk);
        if !spells(&parts[2], "-") {
            let c: &Vec<char> = &parts[2];
            let mut r: u8 = 0;
            let mut i: usize = 0;
            while i < c.len()
                invariant
                    i <= c@.len(),
                    r == named_rights(c@, i as int),
                    r < 16,
                decreases c@.len() - i,
            {
                proof {
                    rights_or(r, 1);
                    rights_or(r, 2);
                    rights_or(r, 4);
                    rights_or(r, 8);
                }
                if c[i] == 'K' {
                    r = r | CastlingRights::WK;
                } else if c[i] == 'Q' {
                    r = r | CastlingRights::WQ;
                } else if c[i] == 'k' {
                    r = r | CastlingRights::BK;
                } else if c[i] == 'q' {
                    r = r | CastlingRights::BQ;
                }
                i = i + 1;
            }
            pos.castling = CastlingRights(r);
        }
        pos.hash = pos.hash ^ castling_key(pos.castling);
        let ghost h2 = pos.hash;
        if !spells(&parts[3], "-") && parts[3].len() >= 2 {
            match sq_from_chars(parts[3][0], parts[3][1]) {
                Some(ep) => {
                    pos.ep_square = ep;
                    pos.hash = pos.hash ^ ep_key(file_of(ep));
                },
                None => {},
            }
        }
        proof {
            let e = ep_square_key(pos.ep_square as int);
            xor_parts(h2, 0, 0, 0);
            assert(pos.hash == h2 ^ e);
            xor_parts(b, tk, rights_key(pos.castling.0 as int), e);
        }
        if parts.len() > 4 {
            pos.halfmove_clock = match parse_unsigned(&parts[4], 65535) {
                Some(n) => n as u16,
                None => 0,
            };
        }
        if parts.len() > 5 {
            pos.fullmove = match parse_unsigned(&parts[5], 65535) {
                Some(n) => n as u16,
                None => 1,
            };
        }
        Ok(pos)
    }

    /// Puts one piece of the initial board on its square.
    fn place_start(&mut self)
        requires
            old(self).wf_boards(),
            forall|s: int| 0 <= s < 64 ==> #[trigger] old(self).mailbox@[s] == EMPTY,
            old(self).hash_extra() == 0,
            old(self).pawn_hash_extra() == 0,
        ensures
            final(self).same_state(*old(self)),
            final(self).mailbox@ == start_board(),
            final(self).wf_boards(),
            final(self).hash_extra() == 0,
            final(self).pawn_hash_extra() == 0,
    {
        let mut i: u8 = 0;
        while i < 64
            invariant
                i <= 64,
                self.same_state(*old(self)),
                self.wf_boards(),
                self.hash_extra() == 0,
                self.pawn_hash_extra() == 0,
                forall|s: int| 0 <= s < i ==> #[trigger] self.mailbox@[s] == start_code(s),
                forall|s: int| i <= s < 64 ==> #[trigger] self.mailbox@[s] == EMPTY,
            decreases 64 - i,
        {
            let piece: u8 = start_piece(i);
            if piece != EMPTY {
                self.put_piece(piece_color(piece), piece_type(piece), i);
            }
            i = i + 1;
        }
        assert(self.mailbox@ =~= start_board());
    }
}

/// In the initial position the black king is not attacked.
proof fn start_is_quiet(p: Position)
    requires
        p.wf_boards(),
        p.mailbox@ == start_board(),
        p.side == Color::White,
    ensures
        has_kings(p),
        !exposed(p),
{
    king_found(p, Color::White, 4);
    king_found(p, Color::Black, 60);
    king_stands(p, Color::Black);
    assert(p.king_square(Color::Black) == 60);
    reveal(attacked);
    reveal(crate::board::agree);
    let occ = p.colors@[0] | p.colors@[1];
    assert forall|s: int| !#[trigger] attacks_from(
        p.pieces@,
        p.colors@[0],
        Color::White,
        occ,
        s,
        60,
    ) by {
        if attacks_from(p.pieces@, p.colors@[0], Color::White, occ, s, 60) {
            assert(start_board()[s] < 6);
            assert(s < 16);
            assert(s < 8) by {
                if s >= 8 {
                    assert(start_board()[s] == 0);
                }
            }
            assert(start_board()[12] == 0);
            crate::bitboard::has_or(p.colors@[0], p.colors@[1], 12);
            assert(member(p.colors@[0], 12));
            assert(member(occ, 12));
            start_rays(occ, s);
            assert(false);
        }
    }
}

/// No line from the first rank reaches e8 past a pawn on e2.
proof fn start_rays(occ: u64, s: int)
    requires
        0 <= s < 8,
        member(occ, 12),
    ensures
        !crate::magic::bishop_reach(occ, s, 60),
        !crate::magic::rook_reach(occ, s, 60),
{
    assert(crate::magic::along(4, 0, 1, 1) == 12);
    if crate::magic::slides(occ, s, 60, 0, 1) {
        assert(s == 4);
        assert(!member(occ, crate::magic::along(s, 0, 1, 1)));
    }
}

// ---- Writing a position ----
/// Files `f` to h of a rank, after `empty` empty squares before them.
pub open spec fn rank_text(m: Seq<u8>, r: int, f: int, empty: int) -> Seq<char>
    decreases 8 - f,
{
    if f >= 8 {
        run_text(empty)
    } else if m[r * 8 + f] == EMPTY {
        rank_text(m, r, f + 1, empty + 1)
    } else {
        run_text(empty) + seq![piece_letter(m[r * 8 + f] as int)] + rank_text(m, r, f + 1, 0)
    }
}

/// The number of a run of empty squares, if there are any.
pub open spec fn run_text(empty: int) -> Seq<char> {
    if empty > 0 {
        seq![(48 + empty) as char]
    } else {
        Seq::empty()
    }
}

/// The ranks from `r` down to 1, with slashes between them.
pub open spec fn board_text(m: Seq<u8>, r: int) -> Seq<char>
    decreases r,
{
    if r <= 0 {
        rank_text(m, 0, 0, 0)
    } else {
        rank_text(m, r, 0, 0) + seq!['/'] + board_text(m, r - 1)
    }
}

/// The castling field.
pub open spec fn rights_text(c: CastlingRights) -> Seq<char> {
    if c.0 == 0 {
        seq!['-']
    } else {
        let k = if c.holds(1) {
            seq!['K']
        } else {
            Seq::empty()
        };
        let q = if c.holds(2) {
            k.push('Q')
        } else {
            k
        };
        let bk = if c.holds(4) {
            q.push('k')
        } else {
            q
        };
        if c.holds(8) {
            bk.push('q')
        } else {
            bk
        }
    }
}

/// The en passant field.
pub open spec fn ep_text(ep: int) -> Seq<char> {
    if ep != 64 {
        square_name(ep)
    } else {
        seq!['-']
    }
}

/// The FEN of a position.
pub open spec fn fen_text(p: Position) -> Seq<char> {
    board_text(p.mailbox@, 7) + seq![
        ' ',
        (if p.side == Color::White {
            'w'
        } else {
            'b'
        }),
        ' ',
    ] + rights_text(p.castling) + seq![' '] + ep_text(p.ep_square as int) + seq![' '] + decimal(
        p.halfmove_clock as nat,
    ) + seq![' '] + decimal(p.fullmove as nat)
}

fn push_run(out: &mut String, empty: u8)
    requires
        empty <= 8,
    ensures
        final(out)@ == old(out)@ + run_text(empty as int),
{
    if empty > 0 {
        let d: u8 = 48 + empty;
        out.push(d as char);
    }
    assert(out@ =~= old(out)@ + run_text(empty as int));
}

fn push_rights(out: &mut String, c: CastlingRights)
    ensures
        final(out)@ == old(out)@ + rights_text(c),
{
    if c.0 == 0 {
        out.push('-');
    } else {
        if c.has(CastlingRights::WK) {
            out.push('K');
        }
        if c.has(CastlingRights::WQ) {
            out.push('Q');
        }
        if c.has(CastlingRights::BK) {
            out.push('k');
        }
        if c.has(CastlingRights::BQ) {
            out.push('q');
        }
    }
    assert(out@ =~= old(out)@ + rights_text(c));
}

fn push_ep(out: &mut String, ep: Square)
    requires
        ep <= 64,
    ensures
        final(out)@ == old(out)@ + ep_text(ep as int),
{
    if ep != NO_SQ {
        push_square_name(out, ep);
    } else {
        out.push('-');
    }
    assert(out@ =~= old(out)@ + ep_text(ep as int));
}

fn push_rank(m: &[u8; 64], out: &mut String, r: u8)
    requires
        r < 8,
        forall|s: int| 0 <= s < 64 ==> #[trigger] m@[s] <= 12,
    ensures
        final(out)@ == old(out)@ + rank_text(m@, r as int, 0, 0),
{
    let ghost goal = old(out)@ + rank_text(m@, r as int, 0, 0);
    let mut empty: u8 = 0;
    let mut f: u8 = 0;
    while f < 8
        invariant
            f <= 8,
            r < 8,
            empty <= f,
            forall|s: int| 0 <= s < 64 ==> #[trigger] m@[s] <= 12,
            out@ + rank_text(m@, r as int, f as int, empty as int) == goal,
        decreases 8 - f,
    {
        let ghost before = out@;
        let piece: u8 = m[(r * 8 + f) as usize];
        assert(m@[r * 8 + f] <= 12);
        if piece == EMPTY {
            empty = empty + 1;
        } else {
            push_run(out, empty);
            out.push(piece_char(piece));
            assert(out@ + rank_text(m@, r as int, f + 1, 0) =~= before + rank_text(
                m@,
                r as int,
                f as int,
                empty as int,
            ));
            empty = 0;
        }
        f = f + 1;
    }
    push_run(out, empty);
}

/// Appends the placement of a board.
pub fn push_board(m: &[u8; 64], out: &mut String)
    requires
        forall|s: int| 0 <= s < 64 ==> #[trigger] m@[s] <= 12,
    ensures
        final(out)@ == old(out)@ + board_text(m@, 7),
{
    let ghost goal = old(out)@ + board_text(m@, 7);
    let mut r: u8 = 7;
    while r > 0
        invariant
            r <= 7,
            forall|s: int| 0 <= s < 64 ==> #[trigger] m@[s] <= 12,
            out@ + board_text(m@, r as int) == goal,
        decreases r,
    {
        let ghost before = out@;
        push_rank(m, out, r);
        out.push('/');
        assert(out@ + board_text(m@, r - 1) =~= before + board_text(m@, r as int));
        r = r - 1;
    }
    push_rank(m, out, 0);
    assert(out@ =~= goal);
}

impl Position {
    /// The initial position.
    pub fn startpos() -> (p: Position)
        ensures
            playable(p),
            p.mailbox@ == start_board(),
            p.side == Color::White,
            p.castling.0 == 15,
            p.ep_square == NO_SQ,
            p.halfmove_clock == 0,
            p.fullmove == 1,
    {
        let mut pos: Position = Position::new();
        proof {
            xor_parts(0, 0, 0, 0);
        }
        pos.place_start();
        pos.castling = CastlingRights(15);
        let k: u64 = castling_key(pos.castling);
        proof {
            xor_parts(pos.hash, board_hash(pos.mailbox@, 64), 0, 0);
            xor_parts(pos.pawn_hash, pawn_board_hash(pos.mailbox@, 64), 0, 0);
            xor_parts(pos.hash, 0, k, 0);
            xor_parts(pos.hash ^ k, 0, 0, 0);
        }
        pos.hash = pos.hash ^ k;
        assert(pos.wf());
        assert(rights_ok(pos));
        proof {
            reveal(sound);
            start_is_quiet(pos);
                }
        pos
    }

    /// Writes the position as a FEN.
    pub fn to_fen(&self) -> (fen: String)
        requires
            self.wf_boards(),
            self.ep_square <= 64,
        ensures
            fen@ == fen_text(*self),
    {
        let mut fen: String = String::new();
        proof {
            codes_bounded(*self);
        }
        push_board(&self.mailbox, &mut fen);
        fen.push(' ');
        fen.push(
            if self.side == Color::White {
                'w'
            } else {
                'b'
            },
        );
        fen.push(' ');
        push_rights(&mut fen, self.castling);
        fen.push(' ');
        push_ep(&mut fen, self.ep_square);
        fen.push(' ');
        push_decimal(&mut fen, self.halfmove_clock as u64);
        fen.push(' ');
        push_decimal(&mut fen, self.fullmove as u64);
        assert(fen@ =~= fen_text(*self));
        fen
    }

    /// Tests whether the position can be played on.
    pub fn is_playable(&self) -> (b: bool)
        requires
            self.wf(),
        ensures
            b == playable(*self),
    {
        proof {
            reveal(sound);
        }
        let m: &[u8; 64] = &self.mailbox;
        let c: CastlingRights = self.castling;
        if c.has(1) && !(m[4] == 5 && m[7] == 3) {
            return false;
        }
        if c.has(2) && !(m[4] == 5 && m[0] == 3) {
            return false;
        }
        if c.has(4) && !(m[60] == 11 && m[63] == 9) {
            return false;
        }
        if c.has(8) && !(m[60] == 11 && m[56] == 9) {
            return false;
        }
        if self.ep_square != NO_SQ {
            if m[self.ep_square as usize] != EMPTY {
                return false;
            }
            match self.side {
                Color::White => {
                    if self.ep_square < 8 || m[(self.ep_square - 8) as usize] != 6 {
                        return false;
                    }
                },
                Color::Black => {
                    if self.ep_square >= 56 || m[(self.ep_square + 8) as usize] != 0 {
                        return false;
                    }
                },
            }
        }
        if self.king_sq(Color::White) >= 64 || self.king_sq(Color::Black) >= 64 {
            return false;
        }
        let ksq: Square = self.king_sq(self.side.flip());
        !is_attacked(&self.pieces, &self.colors, ksq, self.side)
    }
}

// ---- Moves in UCI notation ----
/// The text names this move: its squares and, for a promotion, its piece.
pub open spec fn uci_names(t: Seq<char>, mv: Move) -> bool {
    &&& t.len() >= 4
    &&& named_square(t) == Some(mv.src() as u8)
    &&& named_square(t.skip(2)) == Some(mv.dst() as u8)
    &&& if t.len() > 4 {
        mv.promotes() && t[4] == mv.promo_letter()
    } else {
        !mv.promotes()
    }
}

/// The first move of a list that the text names.
pub open spec fn first_named(l: Seq<Move>, t: Seq<char>) -> Option<Move>
    decreases l.len(),
{
    if l.len() == 0 {
        None
    } else if uci_names(t, l[0]) {
        Some(l[0])
    } else {
        first_named(l.skip(1), t)
    }
}

fn names_move(t: &Vec<char>, mv: Move) -> (b: bool)
    ensures
        b == uci_names(t@, mv),
{
    if t.len() < 4 {
        return false;
    }
    let from: Option<Square> = sq_from_chars(t[0], t[1]);
    let to: Option<Square> = sq_from_chars(t[2], t[3]);
    let f: Square = match from {
        Some(s) => s,
        None => {
            return false;
        },
    };
    let d: Square = match to {
        Some(s) => s,
        None => {
            return false;
        },
    };
    if f != mv.from() || d != mv.to() {
        return false;
    }
    if t.len() > 4 {
        let letter: char = match mv.promo_piece_type() {
            PieceType::Knight => 'n',
            PieceType::Bishop => 'b',
            PieceType::Rook => 'r',
            _ => 'q',
        };
        mv.is_promotion() && t[4] == letter
    } else {
        !mv.is_promotion()
    }
}

impl Position {
    /// The legal move that a text such as "e2e4" or "a7a8q" names.
    pub fn parse_uci_move(&self, s: &str) -> (r: Option<Move>)
        requires
            playable(*self),
            self.clock_room(1),
        ensures
            r == first_named(legal_moves(*self), s@),
    {
        self.named_move(&chars_of(s))
    }

    /// The same for a text in characters.
    pub fn named_move(&self, t: &Vec<char>) -> (r: Option<Move>)
        requires
            playable(*self),
            self.clock_room(1),
        ensures
            r == first_named(legal_moves(*self), t@),
    {
        let mut tmp: Position = self.clone();
        let mut list: MoveList = MoveList::new();
        generate_legal(&mut tmp, &mut list);
        assert(list@ =~= legal_moves(*self));
        let mut i: usize = 0;
        assert(list@.skip(0) =~= list@);
        while i < list.len
            invariant
                i <= list@.len(),
                list.wf(),
                list@ == legal_moves(*self),
                first_named(list@.skip(i as int), t@) == first_named(list@, t@),
            decreases list@.len() - i,
        {
            let ghost rest = list@.skip(i as int);
            assert(rest[0] == list@[i as int]);
            assert(rest.skip(1) =~= list@.skip(i as int + 1));
            if names_move(t, list.moves[i]) {
                return Some(list.moves[i]);
            }
            i = i + 1;
        }
        None
    }
}

} // verus!
