//! Fundamental types: squares, colours, pieces, castling rights and moves.

use vstd::prelude::*;

verus! {

/// Squares run from 0 (a1) over 7 (h1) to 63 (h8).
pub type Square = u8;

/// The value that stands for "no square".
pub const NO_SQ: Square = 64;

pub const A1: Square = 0;

pub const B1: Square = 1;

pub const C1: Square = 2;

pub const D1: Square = 3;

pub const E1: Square = 4;

pub const F1: Square = 5;

pub const G1: Square = 6;

pub const H1: Square = 7;

pub const A8: Square = 56;

pub const B8: Square = 57;

pub const C8: Square = 58;

pub const D8: Square = 59;

pub const E8: Square = 60;

pub const F8: Square = 61;

pub const G8: Square = 62;

pub const H8: Square = 63;

/// The file (0 to 7) of a square, as a number.
pub open spec fn file(s: int) -> int {
    s % 8
}

/// The rank (0 to 7) of a square, as a number.
pub open spec fn rank(s: int) -> int {
    s / 8
}

/// `s` is a square of the board.
pub open spec fn on_board(s: int) -> bool {
    0 <= s < 64
}

pub fn sq(file: u8, rank: u8) -> (s: Square)
    requires
        rank * 8 + file <= 255,
    ensures
        s == rank * 8 + file,
{
    rank * 8 + file
}

pub fn file_of(s: Square) -> (f: u8)
    ensures
        f == file(s as int),
{
    assert(s & 7 == s % 8) by (bit_vector);
    s & 7
}

pub fn rank_of(s: Square) -> (r: u8)
    ensures
        r == rank(s as int),
{
    assert(s >> 3 == s / 8) by (bit_vector);
    s >> 3
}

/// The square on the same file and the mirrored rank.
pub open spec fn mirrored(s: int) -> int {
    (7 - rank(s)) * 8 + file(s)
}

pub fn mirror_sq(s: Square) -> (r: Square)
    requires
        s < 64,
    ensures
        r == mirrored(s as int),
{
    assert(s < 64 ==> s ^ 56 == (7 - s / 8) * 8 + s % 8) by (bit_vector);
    s ^ 56
}

/// Mirroring a square twice gives the square back.
pub proof fn mirror_is_involution(s: int)
    requires
        on_board(s),
    ensures
        on_board(mirrored(s)),
        mirrored(mirrored(s)) == s,
{
}

/// `std::string::String::push`: the character is appended at the end of the string.
pub assume_specification[ String::push ](s: &mut String, c: char)
    ensures
        final(s)@ == old(s)@.push(c),
;

/// The two characters that name a square: file letter, then rank digit.
pub open spec fn square_name(s: int) -> Seq<char> {
    seq![(97 + file(s)) as char, (49 + rank(s)) as char]
}

/// Appends the name of a square.
pub fn push_square_name(out: &mut String, s: Square)
    requires
        s < 64,
    ensures
        final(out)@ == old(out)@ + square_name(s as int),
{
    let f: u8 = 97 + file_of(s);
    let r: u8 = 49 + rank_of(s);
    out.push(f as char);
    out.push(r as char);
    assert(out@ =~= old(out)@ + square_name(s as int));
}

/// The square that the first two characters of a text name, if they do.
pub open spec fn named_square(t: Seq<char>) -> Option<Square> {
    if t.len() >= 2 && 'a' <= t[0] <= 'h' && '1' <= t[1] <= '8' {
        Some(((t[1] as int - 49) * 8 + (t[0] as int - 97)) as u8)
    } else {
        None
    }
}

/// The square at a file letter and a rank digit.
pub fn sq_from_chars(f: char, r: char) -> (res: Option<Square>)
    ensures
        res == named_square(seq![f, r]),
{
    let fi: u32 = f as u32;
    let ri: u32 = r as u32;
    if 97 <= fi && fi < 105 && 49 <= ri && ri < 57 {
        let s: u8 = ((ri - 49) * 8 + (fi - 97)) as u8;
        Some(s)
    } else {
        None
    }
}

/// The square that a text names. Only the first two characters count.
pub fn sq_from_str(s: &str) -> (res: Option<Square>)
    ensures
        res == named_square(s@),
{
    let cs: Vec<char> = chars_of(s);
    if cs.len() < 2 {
        return None;
    }
    sq_from_chars(cs[0], cs[1])
}

/// A square is named by exactly its own name.
pub proof fn square_name_roundtrip(s: int)
    requires
        on_board(s),
    ensures
        named_square(square_name(s)) == Some(s as u8),
{
}

/// The characters of a text.
pub fn chars_of(s: &str) -> (v: Vec<char>)
    ensures
        v@ == s@,
{
    let mut v: Vec<char> = Vec::new();
    for c in it: s.chars()
        invariant
            v@ == it.seq().take(it.index() as int),
    {
        v.push(c);
        assert(v@ =~= it.seq().take(it.index() as int + 1));
    }
    assert(v@ =~= s@);
    v
}

// ---- Colours ----
#[derive(Copy, Clone, PartialEq, Eq, Debug, Structural)]
pub enum Color {
    White,
    Black,
}

pub const WHITE: Color = Color::White;

pub const BLACK: Color = Color::Black;

pub const NUM_COLORS: usize = 2;

impl Color {
    pub open spec fn other(self) -> Color {
        match self {
            Color::White => Color::Black,
            Color::Black => Color::White,
        }
    }

    pub open spec fn num(self) -> int {
        match self {
            Color::White => 0,
            Color::Black => 1,
        }
    }

    pub fn flip(self) -> (c: Color)
        ensures
            c == self.other(),
    {
        match self {
            Color::White => Color::Black,
            Color::Black => Color::White,
        }
    }

    pub fn index(self) -> (i: usize)
        ensures
            i == self.num(),
            i < 2,
    {
        match self {
            Color::White => 0,
            Color::Black => 1,
        }
    }
}

/// Flipping a colour twice gives the colour back.
pub proof fn flip_is_involution(c: Color)
    ensures
        c.other().other() == c,
        c.other() != c,
{
}

// ---- Piece types ----
#[derive(Copy, Clone, PartialEq, Eq, Debug, Structural)]
pub enum PieceType {
    Pawn,
    Knight,
    Bishop,
    Rook,
    Queen,
    King,
    NoType,
}

pub const PAWN: PieceType = PieceType::Pawn;

pub const KNIGHT: PieceType = PieceType::Knight;

pub const BISHOP: PieceType = PieceType::Bishop;

pub const ROOK: PieceType = PieceType::Rook;

pub const QUEEN: PieceType = PieceType::Queen;

pub const KING: PieceType = PieceType::King;

pub const NUM_PIECE_TYPES: usize = 6;

impl PieceType {
    pub open spec fn num(self) -> int {
        match self {
            PieceType::Pawn => 0,
            PieceType::Knight => 1,
            PieceType::Bishop => 2,
            PieceType::Rook => 3,
            PieceType::Queen => 4,
            PieceType::King => 5,
            PieceType::NoType => 6,
        }
    }

    pub fn index(self) -> (i: usize)
        ensures
            i == self.num(),
            i <= 6,
    {
        match self {
            PieceType::Pawn => 0,
            PieceType::Knight => 1,
            PieceType::Bishop => 2,
            PieceType::Rook => 3,
            PieceType::Queen => 4,
            PieceType::King => 5,
            PieceType::NoType => 6,
        }
    }
}

// ---- Mailbox pieces: 0 to 5 white pawn to king, 6 to 11 black, 12 empty ----
pub const EMPTY: u8 = 12;

/// The mailbox code of a piece.
pub open spec fn piece_code(c: Color, pt: PieceType) -> int {
    c.num() * 6 + pt.num()
}

/// The colour of a mailbox code.
pub open spec fn color_of(p: int) -> Color {
    if p < 6 {
        Color::White
    } else {
        Color::Black
    }
}

/// The piece type of a mailbox code.
pub open spec fn type_of(p: int) -> PieceType {
    if p % 6 == 0 {
        PieceType::Pawn
    } else if p % 6 == 1 {
        PieceType::Knight
    } else if p % 6 == 2 {
        PieceType::Bishop
    } else if p % 6 == 3 {
        PieceType::Rook
    } else if p % 6 == 4 {
        PieceType::Queen
    } else {
        PieceType::King
    }
}

pub fn make_piece(color: Color, pt: PieceType) -> (p: u8)
    ensures
        p == piece_code(color, pt),
{
    let c: u8 = match color {
        Color::White => 0,
        Color::Black => 6,
    };
    c + pt.index() as u8
}

pub fn piece_color(p: u8) -> (c: Color)
    ensures
        c == color_of(p as int),
{
    if p < 6 {
        Color::White
    } else {
        Color::Black
    }
}

pub fn piece_type(p: u8) -> (pt: PieceType)
    ensures
        pt == type_of(p as int),
        pt.num() < 6,
{
    match p % 6 {
        0 => PieceType::Pawn,
        1 => PieceType::Knight,
        2 => PieceType::Bishop,
        3 => PieceType::Rook,
        4 => PieceType::Queen,
        _ => PieceType::King,
    }
}

/// Colour and type of a piece code give the code back, and the other way round.
pub proof fn piece_code_roundtrip(c: Color, pt: PieceType, p: int)
    requires
        pt != PieceType::NoType,
        0 <= p < 12,
    ensures
        0 <= piece_code(c, pt) < 12,
        color_of(piece_code(c, pt)) == c,
        type_of(piece_code(c, pt)) == pt,
        piece_code(color_of(p), type_of(p)) == p,
{
}

/// Letters of the mailbox codes: "PNBRQKpnbrqk.".
pub const PIECE_CHARS: [u8; 13] = [80, 78, 66, 82, 81, 75, 112, 110, 98, 114, 113, 107, 46];

/// The letter of a mailbox code.
pub open spec fn piece_letter(p: int) -> char {
    if p == 0 {
        'P'
    } else if p == 1 {
        'N'
    } else if p == 2 {
        'B'
    } else if p == 3 {
        'R'
    } else if p == 4 {
        'Q'
    } else if p == 5 {
        'K'
    } else if p == 6 {
        'p'
    } else if p == 7 {
        'n'
    } else if p == 8 {
        'b'
    } else if p == 9 {
        'r'
    } else if p == 10 {
        'q'
    } else if p == 11 {
        'k'
    } else {
        '.'
    }
}

/// The mailbox code that a letter stands for.
pub open spec fn letter_piece(c: char) -> Option<u8> {
    if c == 'P' {
        Some(0u8)
    } else if c == 'N' {
        Some(1u8)
    } else if c == 'B' {
        Some(2u8)
    } else if c == 'R' {
        Some(3u8)
    } else if c == 'Q' {
        Some(4u8)
    } else if c == 'K' {
        Some(5u8)
    } else if c == 'p' {
        Some(6u8)
    } else if c == 'n' {
        Some(7u8)
    } else if c == 'b' {
        Some(8u8)
    } else if c == 'r' {
        Some(9u8)
    } else if c == 'q' {
        Some(10u8)
    } else if c == 'k' {
        Some(11u8)
    } else {
        None
    }
}

pub fn piece_from_char(c: char) -> (r: Option<u8>)
    ensures
        r == letter_piece(c),
{
    match c {
        'P' => Some(0),
        'N' => Some(1),
        'B' => Some(2),
        'R' => Some(3),
        'Q' => Some(4),
        'K' => Some(5),
        'p' => Some(6),
        'n' => Some(7),
        'b' => Some(8),
        'r' => Some(9),
        'q' => Some(10),
        'k' => Some(11),
        _ => None,
    }
}

/// The letter of a piece code.
pub fn piece_char(p: u8) -> (c: char)
    requires
        p <= 12,
    ensures
        c == piece_letter(p as int),
{
    let t: &[u8; 13] = &PIECE_CHARS;
    t[p as usize] as char
}

/// Every piece code is the one that its letter stands for.
pub proof fn piece_letter_roundtrip(p: int)
    requires
        0 <= p < 12,
    ensures
        letter_piece(piece_letter(p)) == Some(p as u8),
        piece_letter(p) != '/',
        !('1' <= piece_letter(p) <= '8'),
        piece_letter(p) != ' ',
{
}

// ---- Castling rights: bit 0 white kingside, 1 white queenside, 2 and 3 black ----
#[derive(Copy, Clone, PartialEq, Eq, Debug, Structural)]
pub struct CastlingRights(pub u8);

impl CastlingRights {
    pub const WK: u8 = 1;

    pub const WQ: u8 = 2;

    pub const BK: u8 = 4;

    pub const BQ: u8 = 8;

    pub open spec fn holds(self, flag: u8) -> bool {
        self.0 & flag != 0
    }

    /// No rights at all.
    pub fn none() -> (r: CastlingRights)
        ensures
            r.0 == 0,
    {
        CastlingRights(0)
    }

    pub fn has(self, flag: u8) -> (b: bool)
        ensures
            b == self.holds(flag),
    {
        self.0 & flag != 0
    }

    pub fn index(self) -> (i: usize)
        ensures
            i == self.0,
    {
        self.0 as usize
    }
}

/// Which rights survive a move from or to a square.
pub const CASTLING_MASK: [u8; 64] = [
    253, 255, 255, 255, 252, 255, 255, 254, 255, 255, 255, 255, 255, 255, 255, 255, 255, 255, 255,
    255, 255, 255, 255, 255, 255, 255, 255, 255, 255, 255, 255, 255, 255, 255, 255, 255, 255, 255,
    255, 255, 255, 255, 255, 255, 255, 255, 255, 255, 255, 255, 255, 255, 255, 255, 255, 255, 247,
    255, 255, 255, 243, 255, 255, 251,
];

/// The rights that survive a move from or to `s`: only the home squares of the
/// kings and rooks clear any.
pub open spec fn castling_mask(s: int) -> u8 {
    if s == 0 {
        253
    } else if s == 4 {
        252
    } else if s == 7 {
        254
    } else if s == 56 {
        247
    } else if s == 60 {
        243
    } else if s == 63 {
        251
    } else {
        255
    }
}

pub fn castling_mask_of(s: Square) -> (m: u8)
    requires
        s < 64,
    ensures
        m == castling_mask(s as int),
{
    let t: &[u8; 64] = &CASTLING_MASK;
    t[s as usize]
}

// ---- Moves: bits 0-5 from, 6-11 to, 12-15 flags ----
#[derive(Copy, Clone, PartialEq, Eq, Debug, Default, Structural)]
pub struct Move(pub u16);

impl Move {
    pub const FLAG_QUIET: u16 = 0;

    pub const FLAG_DOUBLE_PAWN: u16 = 1;

    pub const FLAG_KING_CASTLE: u16 = 2;

    pub const FLAG_QUEEN_CASTLE: u16 = 3;

    pub const FLAG_CAPTURE: u16 = 4;

    pub const FLAG_EP: u16 = 5;

    pub const FLAG_KNIGHT_PROMO: u16 = 8;

    pub const FLAG_BISHOP_PROMO: u16 = 9;

    pub const FLAG_ROOK_PROMO: u16 = 10;

    pub const FLAG_QUEEN_PROMO: u16 = 11;

    pub const FLAG_KNIGHT_PROMO_CAP: u16 = 12;

    pub const FLAG_BISHOP_PROMO_CAP: u16 = 13;

    pub const FLAG_ROOK_PROMO_CAP: u16 = 14;

    pub const FLAG_QUEEN_PROMO_CAP: u16 = 15;

    pub open spec fn src(self) -> int {
        self.0 as int % 64
    }

    pub open spec fn dst(self) -> int {
        (self.0 as int / 64) % 64
    }

    pub open spec fn flag(self) -> int {
        self.0 as int / 4096
    }

    pub open spec fn captures(self) -> bool {
        (self.flag() / 4) % 2 == 1
    }

    pub open spec fn promotes(self) -> bool {
        self.flag() >= 8
    }

    pub open spec fn promo_type(self) -> PieceType {
        if self.flag() % 4 == 0 {
            PieceType::Knight
        } else if self.flag() % 4 == 1 {
            PieceType::Bishop
        } else if self.flag() % 4 == 2 {
            PieceType::Rook
        } else {
            PieceType::Queen
        }
    }

    /// The move with these parts.
    pub open spec fn of(from: int, to: int, flags: int) -> Move {
        Move((from + 64 * to + 4096 * flags) as u16)
    }

    /// The move that stands for "no move".
    pub fn null() -> (m: Move)
        ensures
            m.0 == 0,
    {
        Move(0)
    }

    pub fn new(from: Square, to: Square, flags: u16) -> (m: Move)
        requires
            from < 64,
            to < 64,
            flags < 16,
        ensures
            m == Move::of(from as int, to as int, flags as int),
            m.src() == from,
            m.dst() == to,
            m.flag() == flags,
    {
        let f: u16 = from as u16;
        let t: u16 = to as u16;
        assert(f < 64 && t < 64 && flags < 16 ==> f | (t << 6) | (flags << 12) == f + 64 * t
            + 4096 * flags) by (bit_vector);
        Move(f | (t << 6) | (flags << 12))
    }

    pub fn from(self) -> (s: Square)
        ensures
            s == self.src(),
            s < 64,
    {
        let m: u16 = self.0;
        assert(m & 0x3F == m % 64) by (bit_vector);
        (self.0 & 0x3F) as u8
    }

    pub fn to(self) -> (s: Square)
        ensures
            s == self.dst(),
            s < 64,
    {
        let m: u16 = self.0;
        assert((m >> 6) & 0x3F == (m / 64) % 64) by (bit_vector);
        ((self.0 >> 6) & 0x3F) as u8
    }

    pub fn flags(self) -> (f: u16)
        ensures
            f == self.flag(),
            f < 16,
    {
        let m: u16 = self.0;
        assert(m >> 12 == m / 4096) by (bit_vector);
        self.0 >> 12
    }

    pub fn is_capture(self) -> (b: bool)
        ensures
            b == self.captures(),
    {
        let f: u16 = self.flags();
        assert((f & 4 != 0) <==> (f / 4) % 2 == 1) by (bit_vector);
        f & 4 != 0
    }

    pub fn is_promotion(self) -> (b: bool)
        ensures
            b == self.promotes(),
    {
        let f: u16 = self.flags();
        assert(f < 16 ==> ((f & 8 != 0) <==> f >= 8)) by (bit_vector);
        f & 8 != 0
    }

    pub fn is_castle(self) -> (b: bool)
        ensures
            b == (self.flag() == 2 || self.flag() == 3),
    {
        self.flags() == Self::FLAG_KING_CASTLE || self.flags() == Self::FLAG_QUEEN_CASTLE
    }

    pub fn is_ep(self) -> (b: bool)
        ensures
            b == (self.flag() == 5),
    {
        self.flags() == Self::FLAG_EP
    }

    pub fn promo_piece_type(self) -> (pt: PieceType)
        ensures
            pt == self.promo_type(),
    {
        match self.flags() % 4 {
            0 => PieceType::Knight,
            1 => PieceType::Bishop,
            2 => PieceType::Rook,
            _ => PieceType::Queen,
        }
    }

    /// The letter of the promotion piece.
    pub open spec fn promo_letter(self) -> char {
        match self.promo_type() {
            PieceType::Knight => 'n',
            PieceType::Bishop => 'b',
            PieceType::Rook => 'r',
            _ => 'q',
        }
    }

    /// The move in UCI notation; the null move is "0000".
    pub open spec fn uci(self) -> Seq<char> {
        if self.0 == 0 {
            seq!['0', '0', '0', '0']
        } else if self.promotes() {
            (square_name(self.src()) + square_name(self.dst())).push(self.promo_letter())
        } else {
            square_name(self.src()) + square_name(self.dst())
        }
    }

    pub fn to_uci(self) -> (s: String)
        ensures
            s@ == self.uci(),
    {
        let mut s: String = String::new();
        if self.0 == 0 {
            s.push('0');
            s.push('0');
            s.push('0');
            s.push('0');
            assert(s@ =~= self.uci());
            return s;
        }
        push_square_name(&mut s, self.from());
        push_square_name(&mut s, self.to());
        if self.is_promotion() {
            s.push(
                match self.promo_piece_type() {
                    PieceType::Knight => 'n',
                    PieceType::Bishop => 'b',
                    PieceType::Rook => 'r',
                    _ => 'q',
                },
            );
        }
        assert(s@ =~= self.uci());
        s
    }
}

/// Every move is the one that is made of its own parts.
pub proof fn move_parts_roundtrip(m: Move)
    ensures
        0 <= m.src() < 64,
        0 <= m.dst() < 64,
        0 <= m.flag() < 16,
        Move::of(m.src(), m.dst(), m.flag()) == m,
{
}

/// A move that is made of three parts has those parts.
pub proof fn move_of_parts(from: int, to: int, flags: int)
    requires
        on_board(from),
        on_board(to),
        0 <= flags < 16,
    ensures
        Move::of(from, to, flags).src() == from,
        Move::of(from, to, flags).dst() == to,
        Move::of(from, to, flags).flag() == flags,
{
}

// ---- Move lists ----
/// How many moves a list has room for before it grows.
pub const MAX_MOVES: usize = 256;

/// A list of moves; `len` is the number of entries of `moves`.
pub struct MoveList {
    pub moves: Vec<Move>,
    pub len: usize,
}

impl View for MoveList {
    type V = Seq<Move>;

    open spec fn view(&self) -> Seq<Move> {
        self.moves@
    }
}

impl MoveList {
    pub open spec fn wf(&self) -> bool {
        self.len == self.moves@.len()
    }

    pub fn new() -> (l: MoveList)
        ensures
            l.wf(),
            l@ == Seq::<Move>::empty(),
    {
        MoveList { moves: Vec::with_capacity(MAX_MOVES), len: 0 }
    }

    pub fn push(&mut self, mv: Move)
        requires
            old(self).wf(),
        ensures
            final(self).wf(),
            final(self)@ == old(self)@.push(mv),
    {
        self.moves.push(mv);
        self.len = self.moves.len();
    }

    /// The moves as a slice, in the order in which they were pushed.
    pub fn iter(&self) -> (s: &[Move])
        ensures
            s@ == self@,
    {
        self.moves.as_slice()
    }
}

/// What `unmake_move` needs to restore a position.
pub struct UndoInfo {
    pub captured: u8,
    pub castling: CastlingRights,
    pub ep_square: Square,
    pub halfmove_clock: u16,
    pub hash: u64,
    pub pawn_hash: u64,
}

} // verus!
