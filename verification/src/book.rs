//! Polyglot opening books.

use crate::board::{fits, Position};
use crate::bytes::{be_num, read_be, read_be16};
pub use crate::expbook::{
    merge_entries, write_sorted_main, ExpBook, ExpEntry, OverlayFlush, OverlayWriter, EXP_FLAG_MATE,
    EXP_FLAG_VALIDATED, EXP_SCORE_NONE, EXP_SOURCE_ENGINE, EXP_SOURCE_JUGERNAUT, EXP_SOURCE_SELFPLAY,
    EXP_SOURCE_STOCKFISH,
};
use crate::movegen::generate_legal;
use crate::polykeys::{ep_keys_count, poly_key, poly_random};
use crate::rules::{
    legal, legal_moves, legal_moves_are_legal, playable, pseudo_legal, pseudo_legal_fits, sound,
    sound_facts,
};
use crate::types::{
    color_of, file, file_of, move_parts_roundtrip, piece_code, piece_color, piece_type, rank,
    rank_of, type_of, Color, Move, MoveList, PieceType, Square, EMPTY, NO_SQ,
};
use vstd::prelude::*;

verus! {

// ---- The hash ----
/// The place of a piece's keys: types by two, Black before White.
pub open spec fn poly_piece(code: int) -> int {
    (code % 6) * 2 + (if color_of(code) == Color::White {
        1int
    } else {
        0
    })
}

/// The hash of the pieces on the first `n` squares.
pub open spec fn poly_board(m: Seq<u8>, n: int) -> u64
    decreases n,
{
    if n <= 0 {
        0
    } else if m[n - 1] >= 12 {
        poly_board(m, n - 1)
    } else {
        poly_board(m, n - 1) ^ poly_random(64 * poly_piece(m[n - 1] as int) + n - 1)
    }
}

/// A key that counts only if a condition holds.
pub open spec fn key_if(b: bool, i: int) -> u64 {
    if b {
        poly_random(i)
    } else {
        0
    }
}

/// A pawn of the side to move stands beside the pawn that jumped.
pub open spec fn ep_can_be_taken(p: Position) -> bool {
    let f = file(p.ep_square as int);
    let r = match p.side {
        Color::White => 4int,
        Color::Black => 3int,
    };
    let pawn = piece_code(p.side, PieceType::Pawn);
    &&& p.ep_square != NO_SQ
    &&& (f > 0 && p.mailbox@[r * 8 + f - 1] == pawn) || (f < 7 && p.mailbox@[r * 8 + f + 1] == pawn)
}

/// The hash of a position: pieces, castling rights, an en passant file only where
/// a pawn can take, and the side to move.
pub open spec fn poly_hash(p: Position) -> u64 {
    poly_board(p.mailbox@, 64) ^ key_if(p.castling.holds(1), 768) ^ key_if(
        p.castling.holds(2),
        769,
    ) ^ key_if(p.castling.holds(4), 770) ^ key_if(p.castling.holds(8), 771) ^ key_if(
        ep_can_be_taken(p),
        772 + file(p.ep_square as int),
    ) ^ key_if(p.side == Color::White, 780)
}

/// An en passant square changes the hash exactly where a pawn of the side to move
/// stands beside the pawn that jumped.
pub proof fn ep_counts_where_taken(p: Position, q: Position)
    requires
        p.ep_square < 64,
        q.ep_square == NO_SQ,
        q.mailbox == p.mailbox,
        q.castling == p.castling,
        q.side == p.side,
    ensures
        (poly_hash(p) != poly_hash(q)) == ep_can_be_taken(p),
{
    ep_keys_count(file(p.ep_square as int));
    let k = poly_random(772 + file(p.ep_square as int));
    let a = poly_board(p.mailbox@, 64) ^ key_if(p.castling.holds(1), 768) ^ key_if(
        p.castling.holds(2),
        769,
    ) ^ key_if(p.castling.holds(4), 770) ^ key_if(p.castling.holds(8), 771);
    let t = key_if(p.side == Color::White, 780);
    assert(k != 0 ==> a ^ k ^ t != a ^ 0 ^ t) by (bit_vector);
}

fn key_of(b: bool, i: usize) -> (k: u64)
    requires
        i < 781,
    ensures
        k == key_if(b, i as int),
{
    if b {
        poly_key(i)
    } else {
        0
    }
}

fn pawn_can_take(pos: &Position) -> (b: bool)
    requires
        pos.ep_square < 64,
    ensures
        b == ep_can_be_taken(*pos),
{
    let f: usize = file_of(pos.ep_square) as usize;
    let row: usize = match pos.side {
        Color::White => 32,
        Color::Black => 24,
    };
    let pawn: u8 = crate::types::make_piece(pos.side, PieceType::Pawn);
    (f > 0 && pos.mailbox[row + f - 1] == pawn) || (f < 7 && pos.mailbox[row + f + 1] == pawn)
}

/// The Polyglot hash of a position.
pub fn polyglot_hash(pos: &Position) -> (h: u64)
    requires
        pos.ep_square <= 64,
    ensures
        h == poly_hash(*pos),
{
    let mut h: u64 = 0;
    let mut s: usize = 0;
    while s < 64
        invariant
            s <= 64,
            h == poly_board(pos.mailbox@, s as int),
        decreases 64 - s,
    {
        let piece: u8 = pos.mailbox[s];
        if piece < EMPTY {
            let side: usize = if piece_color(piece) == Color::White {
                1
            } else {
                0
            };
            let k: usize = piece_type(piece).index() * 2 + side;
            h = h ^ poly_key(64 * k + s);
        }
        s = s + 1;
    }
    let taken: bool = pos.ep_square != NO_SQ && pawn_can_take(pos);
    let ep_index: usize = 772 + (pos.ep_square % 8) as usize;
    h ^ key_of(pos.castling.has(1), 768) ^ key_of(pos.castling.has(2), 769) ^ key_of(
        pos.castling.has(4),
        770,
    ) ^ key_of(pos.castling.has(8), 771) ^ key_of(taken, ep_index) ^ key_of(
        pos.side == Color::White,
        780,
    )
}

// ---- Moves ----
/// The square that a raw move leaves.
pub open spec fn raw_from(raw: int) -> int {
    (raw / 512 % 8) * 8 + raw / 64 % 8
}

/// The square that a raw move names as its goal.
pub open spec fn raw_to(raw: int) -> int {
    (raw / 8 % 8) * 8 + raw % 8
}

/// The promotion that a raw move names; 0 for none.
pub open spec fn raw_promo(raw: int) -> int {
    raw / 4096 % 8
}

/// The square that a raw move goes to. A king's move from the e-file to a corner
/// file stands for castling.
pub open spec fn raw_target(p: Position, raw: int) -> int {
    let f = raw_from(raw);
    let row = raw / 512 % 8;
    let king = p.mailbox@[f] < 12 && type_of(p.mailbox@[f] as int) == PieceType::King;
    if king && raw / 64 % 8 == 4 && raw % 8 == 0 {
        row * 8 + 2
    } else if king && raw / 64 % 8 == 4 && raw % 8 == 7 {
        row * 8 + 6
    } else {
        raw_to(raw)
    }
}

/// The number of a promotion: 1 to 4 for knight to queen, 0 for other moves.
pub open spec fn promo_number(mv: Move) -> int {
    if mv.flag() >= 12 {
        mv.flag() - 11
    } else if mv.flag() >= 8 {
        mv.flag() - 7
    } else {
        0
    }
}

/// A move is one that a raw move can stand for.
pub open spec fn raw_matches(p: Position, raw: int, mv: Move) -> bool {
    &&& mv.src() == raw_from(raw)
    &&& mv.dst() == raw_target(p, raw)
    &&& raw_promo(raw) > 0 ==> promo_number(mv) == raw_promo(raw)
}

/// The first move of a list that a raw move can stand for.
pub open spec fn first_matching(p: Position, raw: int, l: Seq<Move>) -> Option<Move>
    decreases l.len(),
{
    if l.len() == 0 {
        None
    } else if raw_matches(p, raw, l[0]) {
        Some(l[0])
    } else {
        first_matching(p, raw, l.drop_first())
    }
}

/// The legal move that a raw move stands for.
pub open spec fn decoded(p: Position, raw: int) -> Option<Move> {
    first_matching(p, raw, legal_moves(p))
}

/// The raw move of a move. Castling goes to the rook's square.
pub open spec fn poly_code(mv: Move) -> int {
    (if mv.flag() == 2 {
        7
    } else if mv.flag() == 3 {
        0
    } else {
        file(mv.dst())
    }) + 8 * rank(mv.dst()) + 64 * file(mv.src()) + 512 * rank(mv.src()) + 4096 * promo_number(mv)
}

fn matches_raw(pos: &Position, raw: u16, mv: Move) -> (b: bool)
    ensures
        b == raw_matches(*pos, raw as int, mv),
{
    proof {
        move_parts_roundtrip(mv);
    }
    let from: usize = ((raw / 512 % 8) * 8 + raw / 64 % 8) as usize;
    let row: usize = (raw / 512 % 8) as usize;
    let piece: u8 = pos.mailbox[from];
    let king: bool = piece < EMPTY && piece_type(piece) == PieceType::King;
    let on_e: bool = raw / 64 % 8 == 4;
    let to: usize = if king && on_e && raw % 8 == 0 {
        row * 8 + 2
    } else if king && on_e && raw % 8 == 7 {
        row * 8 + 6
    } else {
        ((raw / 8 % 8) * 8 + raw % 8) as usize
    };
    if mv.from() as usize != from || mv.to() as usize != to {
        return false;
    }
    let promo: u16 = raw / 4096 % 8;
    promo == 0 || promotion_number(mv) == promo
}

fn promotion_number(mv: Move) -> (n: u16)
    ensures
        n == promo_number(mv),
        n <= 4,
{
    proof {
        move_parts_roundtrip(mv);
    }
    let f: u16 = mv.flags();
    if f >= 12 {
        f - 11
    } else if f >= 8 {
        f - 7
    } else {
        0
    }
}

/// The legal move that a raw move stands for, if there is one.
pub fn decode_poly_move(pos: &mut Position, raw: u16) -> (r: Option<Move>)
    requires
        playable(*old(pos)),
        old(pos).clock_room(1),
    ensures
        *final(pos) == *old(pos),
        r == decoded(*old(pos), raw as int),
{
    let mut list: MoveList = MoveList::new();
    generate_legal(pos, &mut list);
    assert(list@ =~= legal_moves(*pos));
    assert(list@.skip(0) =~= list@);
    let mut i: usize = 0;
    while i < list.len
        invariant
            *pos == *old(pos),
            list.wf(),
            list@ == legal_moves(*pos),
            i <= list@.len(),
            first_matching(*pos, raw as int, list@.skip(i as int)) == decoded(*pos, raw as int),
        decreases list@.len() - i,
    {
        let mv: Move = list.moves[i];
        assert(list@.skip(i as int)[0] == mv);
        assert(list@.skip(i as int).drop_first() =~= list@.skip(i + 1));
        if matches_raw(pos, raw, mv) {
            return Some(mv);
        }
        i = i + 1;
    }
    None
}

/// The raw move of a move.
pub fn encode_poly_move(mv: Move) -> (raw: u16)
    ensures
        raw == poly_code(mv),
{
    proof {
        move_parts_roundtrip(mv);
    }
    let from: Square = mv.from();
    let to: Square = mv.to();
    let flags: u16 = mv.flags();
    let to_file: u16 = if flags == 2 {
        7
    } else if flags == 3 {
        0
    } else {
        file_of(to) as u16
    };
    to_file + 8 * (rank_of(to) as u16) + 64 * (file_of(from) as u16) + 512 * (rank_of(from) as u16)
        + 4096 * promotion_number(mv)
}

// ---- Encoding and decoding ----
/// The parts of a raw move that was made from a move.
proof fn code_parts(mv: Move)
    ensures
        0 <= poly_code(mv) < 65536,
        raw_from(poly_code(mv)) == mv.src(),
        poly_code(mv) / 512 % 8 == rank(mv.src()),
        poly_code(mv) / 64 % 8 == file(mv.src()),
        poly_code(mv) / 8 % 8 == rank(mv.dst()),
        raw_promo(poly_code(mv)) == promo_number(mv),
        poly_code(mv) % 8 == (if mv.flag() == 2 {
            7
        } else if mv.flag() == 3 {
            0
        } else {
            file(mv.dst())
        }),
{
    move_parts_roundtrip(mv);
    let a = if mv.flag() == 2 {
        7
    } else if mv.flag() == 3 {
        0
    } else {
        file(mv.dst())
    };
    octal_digits(a, rank(mv.dst()), file(mv.src()), rank(mv.src()), promo_number(mv));
    assert(mv.src() == rank(mv.src()) * 8 + file(mv.src()));
}

/// The digits of a number to the base eight.
proof fn octal_digits(a: int, b: int, c: int, d: int, e: int)
    requires
        0 <= a < 8,
        0 <= b < 8,
        0 <= c < 8,
        0 <= d < 8,
        0 <= e < 8,
    ensures
        ({
            let x = a + 8 * b + 64 * c + 512 * d + 4096 * e;
            &&& x % 8 == a
            &&& x / 8 % 8 == b
            &&& x / 64 % 8 == c
            &&& x / 512 % 8 == d
            &&& x / 4096 % 8 == e
        }),
{
    let x = a + 8 * b + 64 * c + 512 * d + 4096 * e;
    assert(x / 8 == b + 8 * c + 64 * d + 512 * e);
    assert(x / 64 == c + 8 * d + 64 * e);
    assert(x / 512 == d + 8 * e);
    assert(x / 4096 == e);
}

/// Two pseudo-legal moves between the same squares, with the same promotion, are
/// the same move.
pub proof fn squares_tell_moves(p: Position, a: Move, b: Move)
    requires
        sound(p),
        pseudo_legal(p, a),
        pseudo_legal(p, b),
        a.src() == b.src(),
        a.dst() == b.dst(),
        promo_number(a) == promo_number(b),
    ensures
        a == b,
{
    moves_differ(p, a, b);
    moves_differ(p, b, a);
    move_parts_roundtrip(a);
    move_parts_roundtrip(b);
    assert(a.flag() == b.flag());
}

/// What the flag of a pseudo-legal move says of its squares tells it from others.
proof fn moves_differ(p: Position, a: Move, b: Move)
    requires
        sound(p),
        pseudo_legal(p, a),
        pseudo_legal(p, b),
        a.src() == b.src(),
        a.dst() == b.dst(),
    ensures
        a.flag() == 0 ==> b.flag() == 0 || b.flag() >= 8,
        a.flag() == 1 ==> b.flag() == 1,
        a.flag() == 2 ==> b.flag() == 2,
        a.flag() == 3 ==> b.flag() == 3,
        a.flag() == 4 ==> b.flag() == 4,
        a.flag() == 5 ==> b.flag() == 5,
        8 <= a.flag() < 12 ==> 8 <= b.flag() < 12,
        a.flag() >= 12 ==> b.flag() >= 12,
        a.flag() < 8 ==> b.flag() < 8,
        a.flag() != 6 && a.flag() != 7,
{
    reveal(pseudo_legal);
    pseudo_legal_fits(p, a);
    pseudo_legal_fits(p, b);
    reveal(fits);
    sound_facts(p);
    move_parts_roundtrip(a);
    move_parts_roundtrip(b);
    crate::board::codes_bounded(p);
    crate::types::flip_is_involution(p.side);
}

/// A pseudo-legal move goes where its raw move says.
proof fn code_target(p: Position, mv: Move)
    requires
        sound(p),
        pseudo_legal(p, mv),
    ensures
        raw_target(p, poly_code(mv)) == mv.dst(),
{
    reveal(pseudo_legal);
    pseudo_legal_fits(p, mv);
    reveal(fits);
    sound_facts(p);
    code_parts(mv);
    move_parts_roundtrip(mv);
    crate::board::codes_bounded(p);
    assert(mv.dst() == rank(mv.dst()) * 8 + file(mv.dst()));
}

/// A move that matches the raw move of a legal move is that move.
proof fn code_is_unique(p: Position, mv: Move, other: Move)
    requires
        sound(p),
        pseudo_legal(p, mv),
        pseudo_legal(p, other),
        raw_matches(p, poly_code(mv), other),
    ensures
        other == mv,
{
    code_parts(mv);
    code_target(p, mv);
    moves_differ(p, mv, other);
    squares_tell_moves(p, mv, other);
}

proof fn first_matching_is(p: Position, mv: Move, l: Seq<Move>)
    requires
        sound(p),
        l.contains(mv),
        forall|i: int| 0 <= i < l.len() ==> pseudo_legal(p, #[trigger] l[i]),
    ensures
        first_matching(p, poly_code(mv), l) == Some(mv),
    decreases l.len(),
{
    let k = choose|k: int| 0 <= k < l.len() && l[k] == mv;
    assert(pseudo_legal(p, l[k]));
    code_parts(mv);
    code_target(p, mv);
    assert(raw_matches(p, poly_code(mv), mv));
    if raw_matches(p, poly_code(mv), l[0]) {
        assert(pseudo_legal(p, l[0]));
        code_is_unique(p, mv, l[0]);
    } else {
        let r = l.drop_first();
        assert(k > 0);
        assert(r[k - 1] == mv);
        assert forall|i: int| 0 <= i < r.len() implies pseudo_legal(p, #[trigger] r[i]) by {
            assert(pseudo_legal(p, l[i + 1]));
        }
        first_matching_is(p, mv, r);
    }
}

/// Decoding the raw move of a legal move gives the move back.
pub proof fn encode_decode(p: Position, mv: Move)
    requires
        playable(p),
        legal(p, mv),
    ensures
        decoded(p, poly_code(mv)) == Some(mv),
{
    sound_facts(p);
    legal_moves_are_legal(p, mv);
    let l = legal_moves(p);
    assert forall|i: int| 0 <= i < l.len() implies pseudo_legal(p, #[trigger] l[i]) by {
        legal_moves_are_legal(p, l[i]);
        assert(l.contains(l[i]));
    }
    first_matching_is(p, mv, l);
}

/// A decoded move is legal.
pub proof fn decoded_is_legal(p: Position, raw: int)
    requires
        playable(p),
    ensures
        decoded(p, raw) matches Some(mv) ==> legal(p, mv),
{
    sound_facts(p);
    if let Some(mv) = decoded(p, raw) {
        matching_is_listed(p, raw, legal_moves(p));
        legal_moves_are_legal(p, mv);
    }
}

proof fn matching_is_listed(p: Position, raw: int, l: Seq<Move>)
    ensures
        first_matching(p, raw, l) matches Some(mv) ==> l.contains(mv),
    decreases l.len(),
{
    if l.len() > 0 {
        matching_is_listed(p, raw, l.drop_first());
        assert(l.contains(l[0]));
        if let Some(mv) = first_matching(p, raw, l.drop_first()) {
            let i = choose|i: int| 0 <= i < l.drop_first().len() && l.drop_first()[i] == mv;
            assert(l[i + 1] == mv);
        }
    }
}

// ---- Books ----
/// A move of a book with its weight.
#[derive(Clone, Copy, PartialEq, Eq, Structural, Debug)]
pub struct Candidate {
    pub raw: u16,
    pub weight: u16,
}

/// A book: entries of 16 bytes, sorted by the hash of the position. A part of an
/// entry at the end does not count.
pub struct Book {
    pub data: Vec<u8>,
    pub num_entries: usize,
}

/// The first index from `i` on whose key is not below `key`.
pub open spec fn not_below(keys: spec_fn(int) -> int, n: int, key: int, i: int) -> int
    decreases n - i,
{
    if i >= n || keys(i) >= key {
        i
    } else {
        not_below(keys, n, key, i + 1)
    }
}

/// The keys ascend.
pub open spec fn ascending(keys: spec_fn(int) -> int, n: int) -> bool {
    forall|i: int, j: int| 0 <= i <= j < n ==> #[trigger] keys(i) <= #[trigger] keys(j)
}

/// Where a bisection for a key ends between two indices. In ascending keys it is the
/// first index whose key is not below; in others, what it comes to still depends on
/// nothing but the keys.
pub open spec fn bisected(keys: spec_fn(int) -> int, key: int, lo: int, hi: int) -> int
    decreases hi - lo,
{
    let mid = lo + (hi - lo) / 2;
    if lo >= hi {
        lo
    } else if keys(mid) < key {
        bisected(keys, key, mid + 1, hi)
    } else {
        bisected(keys, key, lo, mid)
    }
}

/// In ascending keys a bisection ends at the first index that is not below.
pub proof fn bisected_is_first(keys: spec_fn(int) -> int, n: int, key: int, lo: int, hi: int)
    requires
        0 <= lo <= hi <= n,
        ascending(keys, n),
        forall|j: int| 0 <= j < lo ==> #[trigger] keys(j) < key,
        hi < n ==> keys(hi) >= key,
    ensures
        bisected(keys, key, lo, hi) == not_below(keys, n, key, 0),
    decreases hi - lo,
{
    if lo >= hi {
        boundary_is_first(keys, n, key, 0, lo);
    } else {
        let mid = lo + (hi - lo) / 2;
        if keys(mid) < key {
            assert forall|j: int| 0 <= j < mid + 1 implies #[trigger] keys(j) < key by {
                assert(keys(j) <= keys(mid));
            }
            bisected_is_first(keys, n, key, mid + 1, hi);
        } else {
            bisected_is_first(keys, n, key, lo, mid);
        }
    }
}

/// In ascending keys, the place between smaller and other keys is the first
/// index that is not below.
pub proof fn boundary_is_first(keys: spec_fn(int) -> int, n: int, key: int, i: int, lo: int)
    requires
        0 <= i <= lo <= n,
        forall|j: int| i <= j < lo ==> #[trigger] keys(j) < key,
        lo < n ==> keys(lo) >= key,
    ensures
        not_below(keys, n, key, i) == lo,
    decreases lo - i,
{
    if i < lo {
        assert(keys(i) < key);
        boundary_is_first(keys, n, key, i + 1, lo);
    }
}

/// The heaviest candidate; of several the last.
pub open spec fn heaviest(l: Seq<Candidate>) -> Candidate
    decreases l.len(),
{
    if l.len() <= 1 {
        l[0]
    } else {
        let b = heaviest(l.drop_last());
        if l.last().weight >= b.weight {
            l.last()
        } else {
            b
        }
    }
}

/// The weight of all candidates.
pub open spec fn total_weight(l: Seq<Candidate>) -> int
    decreases l.len(),
{
    if l.len() == 0 {
        0
    } else {
        total_weight(l.drop_last()) + l.last().weight
    }
}

/// The candidate at a point of the line on which all candidates are laid out by
/// their weights; the first where the point lies beyond.
pub open spec fn at_point(l: Seq<Candidate>, point: int, n: int) -> Candidate
    decreases l.len() - n,
{
    if n >= l.len() {
        l[0]
    } else if point < l[n].weight {
        l[n]
    } else {
        at_point(l, point - l[n].weight, n + 1)
    }
}

impl Book {
    pub open spec fn wf(&self) -> bool {
        self.num_entries == self.data@.len() / 16
    }

    pub open spec fn key(&self, i: int) -> int {
        be_num(self.data@.subrange(16 * i, 16 * i + 8)) as int
    }

    pub open spec fn raw(&self, i: int) -> int {
        be_num(self.data@.subrange(16 * i + 8, 16 * i + 10)) as int
    }

    pub open spec fn weight(&self, i: int) -> int {
        be_num(self.data@.subrange(16 * i + 10, 16 * i + 12)) as int
    }

    pub open spec fn keys(&self) -> spec_fn(int) -> int {
        |i: int| self.key(i)
    }

    /// The entries are sorted by their keys.
    pub open spec fn sorted(&self) -> bool {
        ascending(self.keys(), self.num_entries as int)
    }

    /// The entry at which a hash is found.
    pub open spec fn found_entry(&self, hash: int) -> Option<int> {
        let i = bisected(self.keys(), hash, 0, self.num_entries as int);
        if i < self.num_entries && self.key(i) == hash {
            Some(i)
        } else {
            None
        }
    }

    /// The first entry of a hash in a sorted book.
    pub open spec fn first_entry(&self, hash: int) -> Option<int> {
        let i = not_below(self.keys(), self.num_entries as int, hash, 0);
        if i < self.num_entries && self.key(i) == hash {
            Some(i)
        } else {
            None
        }
    }

    /// The candidates of a hash from an entry on: entries with a weight, as long
    /// as the hash stays the same.
    pub open spec fn candidates(&self, hash: int, i: int) -> Seq<Candidate>
        decreases self.num_entries - i,
    {
        if i >= self.num_entries || self.key(i) != hash {
            Seq::empty()
        } else {
            (if self.weight(i) > 0 {
                seq![Candidate { raw: self.raw(i) as u16, weight: self.weight(i) as u16 }]
            } else {
                Seq::empty()
            }) + self.candidates(hash, i + 1)
        }
    }

    /// The candidates of a position.
    pub open spec fn offers(&self, p: Position) -> Seq<Candidate> {
        match self.found_entry(poly_hash(p) as int) {
            Some(i) => self.candidates(poly_hash(p) as int, i),
            None => Seq::empty(),
        }
    }

    /// A book from the bytes of a file.
    pub fn from_bytes(data: Vec<u8>) -> (b: Book)
        ensures
            b.wf(),
            b.data == data,
    {
        let num_entries: usize = data.len() / 16;
        Book { data, num_entries }
    }

    fn entry_key(&self, idx: usize) -> (k: u64)
        requires
            self.wf(),
            idx < self.num_entries,
        ensures
            k == self.key(idx as int),
    {
        let n: usize = self.data.len();
        assert(16 * idx + 16 <= n);
        read_be(self.data.as_slice(), 16 * idx, 8)
    }

    fn entry_move(&self, idx: usize) -> (m: u16)
        requires
            self.wf(),
            idx < self.num_entries,
        ensures
            m == self.raw(idx as int),
    {
        let n: usize = self.data.len();
        assert(16 * idx + 16 <= n);
        read_be16(self.data.as_slice(), 16 * idx + 8)
    }

    fn entry_weight(&self, idx: usize) -> (w: u16)
        requires
            self.wf(),
            idx < self.num_entries,
        ensures
            w == self.weight(idx as int),
    {
        let n: usize = self.data.len();
        assert(16 * idx + 16 <= n);
        read_be16(self.data.as_slice(), 16 * idx + 10)
    }

    /// The first entry of a hash, by bisection. A book that is not sorted may
    /// miss entries, but what is found has the hash.
    pub fn find_first(&self, hash: u64) -> (r: Option<usize>)
        requires
            self.wf(),
        ensures
            match r {
                Some(i) => i < self.num_entries && self.key(i as int) == hash && self.found_entry(
                    hash as int,
                ) == Some(i as int),
                None => self.found_entry(hash as int) is None,
            },
            self.sorted() ==> self.found_entry(hash as int) == self.first_entry(hash as int),
    {
        let mut lo: usize = 0;
        let mut hi: usize = self.num_entries;
        let ghost keys = self.keys();
        let ghost end = bisected(keys, hash as int, 0, self.num_entries as int);
        while lo < hi
            invariant
                self.wf(),
                lo <= hi <= self.num_entries,
                keys == self.keys(),
                end == bisected(keys, hash as int, lo as int, hi as int),
            decreases hi - lo,
        {
            let mid: usize = lo + (hi - lo) / 2;
            let k: u64 = self.entry_key(mid);
            assert(keys(mid as int) == k);
            if k < hash {
                lo = mid + 1;
            } else {
                hi = mid;
            }
        }
        proof {
            if self.sorted() {
                bisected_is_first(keys, self.num_entries as int, hash as int, 0, self.num_entries as int);
            }
        }
        if lo < self.num_entries && self.entry_key(lo) == hash {
            Some(lo)
        } else {
            None
        }
    }

    fn collect(&self, hash: u64, first: usize) -> (l: Vec<Candidate>)
        requires
            self.wf(),
            first <= self.num_entries,
        ensures
            l@ == self.candidates(hash as int, first as int),
    {
        let mut l: Vec<Candidate> = Vec::new();
        let mut i: usize = first;
        let ghost all = self.candidates(hash as int, first as int);
        assert(l@ + self.candidates(hash as int, first as int) =~= all);
        while i < self.num_entries && self.entry_key(i) == hash
            invariant
                self.wf(),
                i <= self.num_entries,
                l@ + self.candidates(hash as int, i as int) == all,
            decreases self.num_entries - i,
        {
            let w: u16 = self.entry_weight(i);
            let ghost before = l@;
            if w > 0 {
                l.push(Candidate { raw: self.entry_move(i), weight: w });
            }
            assert(l@ + self.candidates(hash as int, i + 1) =~= before + self.candidates(
                hash as int,
                i as int,
            ));
            i = i + 1;
        }
        assert(l@ =~= all);
        l
    }

    /// A book move for a position: the heaviest one, or one drawn by its weight.
    pub fn probe(&self, pos: &mut Position, rng_val: u64, best_only: bool) -> (r: Option<Move>)
        requires
            self.wf(),
            playable(*old(pos)),
            old(pos).clock_room(1),
        ensures
            *final(pos) == *old(pos),
            r matches Some(mv) ==> legal(*old(pos), mv),
            r == chosen_move(
                *old(pos),
                self.offers(*old(pos)),
                rng_val as int,
                best_only,
            ),
    {
        proof {
            sound_facts(*pos);
        }
        let hash: u64 = polyglot_hash(pos);
        let first: usize = match self.find_first(hash) {
            Some(i) => i,
            None => {
                return None;
            },
        };
        let l: Vec<Candidate> = self.collect(hash, first);
        if l.len() == 0 {
            return None;
        }
        let raw: u16 = if best_only {
            heaviest_of(&l)
        } else {
            drawn_of(&l, rng_val)
        };
        proof {
            decoded_is_legal(*pos, raw as int);
        }
        decode_poly_move(pos, raw)
    }
}

/// The move that a list of candidates gives.
pub open spec fn chosen_move(p: Position, l: Seq<Candidate>, rng: int, best_only: bool) -> Option<Move> {
    if l.len() == 0 {
        None
    } else if best_only {
        decoded(p, heaviest(l).raw as int)
    } else if total_weight(l) == 0 {
        decoded(p, l[0].raw as int)
    } else {
        decoded(p, at_point(l, rng % total_weight(l), 0).raw as int)
    }
}

fn heaviest_of(l: &Vec<Candidate>) -> (raw: u16)
    requires
        l@.len() > 0,
    ensures
        raw == heaviest(l@).raw,
{
    let mut b: Candidate = l[0];
    let mut i: usize = 1;
    assert(l@.take(1).len() == 1);
    while i < l.len()
        invariant
            1 <= i <= l@.len(),
            b == heaviest(l@.take(i as int)),
        decreases l@.len() - i,
    {
        let c: Candidate = l[i];
        assert(l@.take(i + 1).drop_last() =~= l@.take(i as int));
        if c.weight >= b.weight {
            b = c;
        }
        i = i + 1;
    }
    assert(l@.take(i as int) =~= l@);
    b.raw
}

/// The raw move of the candidate that a random number draws by weight.
pub fn drawn_of(l: &Vec<Candidate>, rng_val: u64) -> (raw: u16)
    requires
        l@.len() > 0,
    ensures
        raw == (if total_weight(l@) == 0 {
            l@[0].raw
        } else {
            at_point(l@, rng_val as int % total_weight(l@), 0).raw
        }),
{
    let mut total: u128 = 0;
    let mut i: usize = 0;
    let n: usize = l.len();
    assert(l@.take(0) =~= Seq::empty());
    while i < n
        invariant
            n == l@.len(),
            i <= n,
            total == total_weight(l@.take(i as int)),
            total <= 65535 * i,
        decreases n - i,
    {
        assert(l@.take(i + 1).drop_last() =~= l@.take(i as int));
        total = total + l[i].weight as u128;
        i = i + 1;
    }
    assert(l@.take(i as int) =~= l@);
    if total == 0 {
        return l[0].raw;
    }
    let mut point: u128 = rng_val as u128 % total;
    let ghost start = point as int;
    let mut k: usize = 0;
    while k < n
        invariant
            n == l@.len(),
            k <= n,
            n > 0,
            total == total_weight(l@),
            total > 0,
            start == rng_val as int % total_weight(l@),
            at_point(l@, point as int, k as int) == at_point(l@, start, 0),
        decreases n - k,
    {
        let c: Candidate = l[k];
        if point < c.weight as u128 {
            return c.raw;
        }
        point = point - c.weight as u128;
        k = k + 1;
    }
    l[0].raw
}

} // verus!
