//! Training records: positions in 32 bytes.

use crate::bitboard::{lowest, lowest_facts, member, pop_lsb, popcount, rest, rest_facts, squares};
use crate::board::{codes_bounded, Position};
use crate::bytes::{
    byte_limits, bytes_roundtrip, le_bytes, le_num, push_le, read_le, read_le_i16, signed16,
    to_unsigned16, unsigned16,
};
use crate::fen::{board_text, push_board};
use crate::num::clamped;
use crate::text::push_text;
use crate::types::{Color, Square, EMPTY};
use vstd::prelude::*;

verus! {

/// The four bits of a piece: its type, and 8 more for black.
pub open spec fn piece_bits(code: int) -> int {
    code % 6 + 8 * (code / 6)
}

/// The four bits of a piece.
pub fn pack_piece(code: u8) -> (b: u8)
    requires
        code < 12,
    ensures
        b == piece_bits(code as int),
        b < 16,
{
    code % 6 + 8 * (code / 6)
}

/// The bits of the pieces on the squares of a set, lowest square first.
pub open spec fn bits_of(m: Seq<u8>, bb: u64) -> Seq<int> {
    Seq::new(squares(bb).len(), |i: int| piece_bits(m[squares(bb)[i]] as int))
}

/// The number at an index, or 0.
pub open spec fn bits_at(b: Seq<int>, i: int) -> int {
    if i < b.len() {
        b[i]
    } else {
        0
    }
}

/// Two pieces to a byte, 16 bytes in all.
pub open spec fn piece_bytes(b: Seq<int>) -> Seq<u8> {
    Seq::new(16, |j: int| (bits_at(b, 2 * j) + 16 * bits_at(b, 2 * j + 1)) as u8)
}

/// The squares that are occupied.
pub open spec fn occupancy(p: Position) -> u64 {
    p.colors@[0] | p.colors@[1]
}

/// The record of a position with a score, both as the side to move sees them.
/// The result of the game is left at 0.
pub open spec fn packed(p: Position, score: int) -> Seq<u8> {
    le_bytes(occupancy(p) as nat, 8) + piece_bytes(bits_of(p.mailbox@, occupancy(p))) + le_bytes(
        unsigned16(clamped(score, -32000, 32000)) as nat,
        2,
    ) + seq![
        0u8,
        p.king_square(p.side) as u8,
        p.king_square(p.side.other()) as u8,
        p.side.num() as u8,
        0u8,
        0u8,
    ]
}

/// The position has no more pieces than a record holds.
pub open spec fn can_pack(p: Position) -> bool {
    squares(occupancy(p)).len() <= 32
}

/// The bytes of the pieces, filled up to a number of them.
proof fn filled(b: Seq<int>, n: int, j: int)
    requires
        0 <= n < b.len() <= 32,
        0 <= j < 16,
    ensures
        piece_bytes(b.take(n + 1))[j] == (if j == n / 2 {
            if n % 2 == 0 {
                b[n] as u8
            } else {
                (bits_at(b.take(n), 2 * j) + 16 * b[n]) as u8
            }
        } else {
            piece_bytes(b.take(n))[j]
        }),
{
}

fn pack_pieces(pos: &Position, occ: u64) -> (pcs: [u8; 16])
    requires
        forall|s: int| 0 <= s < 64 && member(occ, s) ==> #[trigger] pos.mailbox@[s] < 12,
        squares(occ).len() <= 32,
    ensures
        pcs@ == piece_bytes(bits_of(pos.mailbox@, occ)),
{
    let ghost b = bits_of(pos.mailbox@, occ);
    let mut pcs: [u8; 16] = [0; 16];
    let mut left: u64 = occ;
    let mut n: usize = 0;
    assert(pcs@ =~= piece_bytes(b.take(0)));
    assert(squares(occ).skip(0) =~= squares(occ));
    while left != 0
        invariant
            forall|s: int| 0 <= s < 64 && member(occ, s) ==> #[trigger] pos.mailbox@[s] < 12,
            squares(occ).len() <= 32,
            b == bits_of(pos.mailbox@, occ),
            n <= b.len(),
            squares(left) == squares(occ).skip(n as int),
            forall|s: int| 0 <= s < 64 && #[trigger] member(left, s) ==> member(occ, s),
            pcs@ == piece_bytes(b.take(n as int)),
        decreases left,
    {
        let ghost before = left;
        proof {
            rest_facts(left);
            lowest_facts(left);
        }
        let s: Square = pop_lsb(&mut left);
        proof {
            assert(squares(before)[0] == s);
            assert(squares(before).len() > 0);
            assert(b.len() == squares(occ).len());
            assert(squares(occ).skip(n as int).len() == squares(occ).len() - n);
            assert(squares(occ).skip(n as int)[0] == squares(occ)[n as int]);
            assert(squares(left) =~= squares(before).skip(1));
            assert(squares(before).skip(1) =~= squares(occ).skip(n + 1));
            assert(b[n as int] == piece_bits(pos.mailbox@[s as int] as int));
        }
        let x: u8 = pack_piece(pos.mailbox[s as usize]);
        let ghost old_pcs = pcs@;
        let j: usize = n / 2;
        if n % 2 == 0 {
            pcs[j] = x;
        } else {
            proof {
                assert(old_pcs[j as int] == (bits_at(b.take(n as int), 2 * j as int) + 16 * bits_at(
                    b.take(n as int),
                    2 * j + 1,
                )) as u8);
                assert(b[n - 1] == piece_bits(pos.mailbox@[squares(occ)[n - 1]] as int));
                crate::bitboard::squares_facts(occ);
                assert(member(occ, squares(occ)[n - 1]));
                assert(pos.mailbox@[squares(occ)[n - 1]] < 12);
                assert(0 <= b[n - 1] < 16);
            }
            pcs[j] = pcs[j] + 16 * x;
        }
        proof {
            assert forall|k: int| 0 <= k < 16 implies pcs@[k] == #[trigger] piece_bytes(
                b.take(n + 1),
            )[k] by {
                filled(b, n as int, k);
                assert(piece_bytes(b.take(n as int))[k] == old_pcs[k]);
            }
            assert(pcs@ =~= piece_bytes(b.take(n + 1)));
        }
        n = n + 1;
    }
    proof {
        assert(squares(occ).skip(n as int).len() == 0);
        assert(b.take(n as int) =~= b);
    }
    pcs
}

/// The record of a position with a score.
pub fn pack_position(pos: &Position, score: i32) -> (r: Vec<u8>)
    requires
        pos.wf_boards(),
        can_pack(*pos),
    ensures
        r@ == packed(*pos, score as int),
        r@.len() == 32,
{
    let occ: u64 = pos.colors[0] | pos.colors[1];
    proof {
        codes_bounded(*pos);
        occupied_squares(*pos);
    }
    let pcs: [u8; 16] = pack_pieces(pos, occ);
    let s: i16 = if score < -32000 {
        -32000
    } else if score > 32000 {
        32000
    } else {
        score as i16
    };
    let mut r: Vec<u8> = Vec::new();
    push_le(&mut r, occ, 8);
    let ghost head = r@;
    let mut j: usize = 0;
    while j < 16
        invariant
            j <= 16,
            r@ == head + pcs@.take(j as int),
        decreases 16 - j,
    {
        r.push(pcs[j]);
        j = j + 1;
        assert(r@ =~= head + pcs@.take(j as int));
    }
    assert(pcs@.take(16) =~= pcs@);
    push_le(&mut r, to_unsigned16(s), 2);
    r.push(0);
    r.push(pos.king_sq(pos.side));
    r.push(pos.king_sq(pos.side.flip()));
    r.push(pos.side.index() as u8);
    r.push(0);
    r.push(0);
    proof {
        packed_parts(*pos, score as int);
    }
    assert(r@ =~= packed(*pos, score as int));
    r
}

/// Squares are occupied where the board has a piece.
proof fn occupied_squares(p: Position)
    requires
        p.wf_boards(),
    ensures
        forall|s: int|
            0 <= s < 64 ==> (#[trigger] p.mailbox@[s] < 12) == member(occupancy(p), s),
{
    codes_bounded(p);
    reveal(crate::board::agree);
    assert forall|s: int| 0 <= s < 64 implies (#[trigger] p.mailbox@[s] < 12) == member(
        occupancy(p),
        s,
    ) by {
        crate::bitboard::has_or(p.colors@[0], p.colors@[1], s);
    }
}

/// The parts of a record.
proof fn packed_parts(p: Position, score: int)
    ensures
        ({
            let r = packed(p, score);
            &&& r.len() == 32
            &&& r.subrange(0, 8) == le_bytes(occupancy(p) as nat, 8)
            &&& le_num(r.subrange(0, 8)) == occupancy(p)
            &&& r.subrange(8, 24) == piece_bytes(bits_of(p.mailbox@, occupancy(p)))
            &&& signed16(le_num(r.subrange(24, 26)) as int) == clamped(score, -32000, 32000)
            &&& r[26] == 0
            &&& r[29] == p.side.num()
        }),
{
    let r = packed(p, score);
    byte_limits();
    let v = unsigned16(clamped(score, -32000, 32000)) as nat;
    bytes_roundtrip(occupancy(p) as nat, 8);
    bytes_roundtrip(v, 2);
    assert(r.subrange(0, 8) =~= le_bytes(occupancy(p) as nat, 8));
    assert(r.subrange(8, 24) =~= piece_bytes(bits_of(p.mailbox@, occupancy(p))));
    assert(r.subrange(24, 26) =~= le_bytes(v, 2));
}

/// The byte of the side to move.
pub proof fn side_byte(p: Position, score: int)
    ensures
        packed(p, score)[29] == p.side.num(),
        packed(p, score).len() == 32,
{
    packed_parts(p, score);
}

// ---- Reading records ----
/// The four bits at an index.
pub open spec fn bits_in(pcs: Seq<u8>, i: int) -> int {
    if i % 2 == 0 {
        pcs[i / 2] as int % 16
    } else {
        pcs[i / 2] as int / 16
    }
}

/// The piece of four bits.
pub open spec fn bits_piece(b: int) -> int {
    b / 8 * 6 + b % 8
}

/// The board with pieces on the squares of a set, from the `i`-th bits on.
pub open spec fn board_with(bb: u64, pcs: Seq<u8>, i: int, m: Seq<u8>) -> Seq<u8>
    decreases bb,
{
    if bb == 0 {
        m
    } else {
        proof {
            crate::bitboard::rest_decreases(bb);
        }
        board_with(rest(bb), pcs, i + 1, m.update(lowest(bb), bits_piece(bits_in(pcs, i)) as u8))
    }
}

/// The occupied squares of a record.
pub open spec fn record_occupancy(r: Seq<u8>) -> u64 {
    le_num(r.subrange(0, 8)) as u64
}

/// The board of a record.
pub open spec fn record_board(r: Seq<u8>) -> Seq<u8> {
    board_with(record_occupancy(r), r.subrange(8, 24), 0, Seq::new(64, |s: int| EMPTY))
}

/// The score of a record.
pub open spec fn record_score(r: Seq<u8>) -> int {
    signed16(le_num(r.subrange(24, 26)) as int)
}

/// The record names only known pieces, and not more than it holds.
pub open spec fn record_ok(r: Seq<u8>) -> bool {
    &&& r.len() == 32
    &&& squares(record_occupancy(r)).len() <= 32
    &&& forall|i: int|
        0 <= i < squares(record_occupancy(r)).len() ==> #[trigger] bits_in(r.subrange(8, 24), i) < 15
}

/// The rights that a board suggests: a king and a rook on their first squares.
pub open spec fn suggested_rights(m: Seq<u8>) -> Seq<char> {
    let k = if m[4] == 5 && m[7] == 3 {
        seq!['K']
    } else {
        Seq::empty()
    };
    let q = if m[4] == 5 && m[0] == 3 {
        k.push('Q')
    } else {
        k
    };
    let bk = if m[60] == 11 && m[63] == 9 {
        q.push('k')
    } else {
        q
    };
    let bq = if m[60] == 11 && m[56] == 9 {
        bk.push('q')
    } else {
        bk
    };
    if bq.len() == 0 {
        seq!['-']
    } else {
        bq
    }
}

/// The FEN of a record.
pub open spec fn record_fen(r: Seq<u8>) -> Seq<char> {
    board_text(record_board(r), 7) + seq![
        ' ',
        (if r[29] % 2 == 1 {
            'b'
        } else {
            'w'
        }),
        ' ',
    ] + suggested_rights(record_board(r)) + " - 0 1"@
}

/// A record as text, with its score and its result.
pub struct Unpacked {
    pub fen: String,
    pub score: i16,
    pub result: u8,
}

fn read_bits(r: &[u8], i: usize) -> (b: u8)
    requires
        r@.len() == 32,
        i < 32,
    ensures
        b == bits_in(r@.subrange(8, 24), i as int),
        b < 16,
{
    assert(r@.subrange(8, 24)[i as int / 2] == r@[8 + i as int / 2]);
    if i % 2 == 0 {
        r[8 + i / 2] % 16
    } else {
        r[8 + i / 2] / 16
    }
}

fn read_board(r: &[u8]) -> (m: [u8; 64])
    requires
        record_ok(r@),
    ensures
        m@ == record_board(r@),
        forall|s: int| 0 <= s < 64 ==> #[trigger] m@[s] <= 12,
{
    let occ: u64 = read_le(r, 0, 8);
    let mut m: [u8; 64] = [EMPTY; 64];
    let mut left: u64 = occ;
    let mut i: usize = 0;
    let ghost pcs = r@.subrange(8, 24);
    let ghost none = Seq::new(64, |s: int| EMPTY);
    assert(m@ =~= none);
    while left != 0
        invariant
            record_ok(r@),
            occ == record_occupancy(r@),
            pcs == r@.subrange(8, 24),
            i + squares(left).len() == squares(occ).len(),
            board_with(left, pcs, i as int, m@) == board_with(occ, pcs, 0, none),
            forall|s: int| 0 <= s < 64 ==> #[trigger] m@[s] <= 12,
        decreases left,
    {
        assert(squares(left).len() == 1 + squares(rest(left)).len());
        let s: Square = pop_lsb(&mut left);
        let b: u8 = read_bits(r, i);
        assert(bits_in(pcs, i as int) < 15);
        let code: u8 = b / 8 * 6 + b % 8;
        m[s as usize] = code;
        i = i + 1;
    }
    m
}

/// Reads a record: its position as a FEN, its score and its result. Castling
/// rights are those that the board suggests.
pub fn unpack_to_fen(r: &[u8]) -> (u: Unpacked)
    requires
        record_ok(r@),
    ensures
        u.fen@ == record_fen(r@),
        u.score == record_score(r@),
        u.result == r@[26],
{
    let m: [u8; 64] = read_board(r);
    let mut fen: String = String::new();
    push_board(&m, &mut fen);
    fen.push(' ');
    fen.push(
        if r[29] % 2 == 1 {
            'b'
        } else {
            'w'
        },
    );
    fen.push(' ');
    let mut any: bool = false;
    if m[4] == 5 && m[7] == 3 {
        fen.push('K');
        any = true;
    }
    if m[4] == 5 && m[0] == 3 {
        fen.push('Q');
        any = true;
    }
    if m[60] == 11 && m[63] == 9 {
        fen.push('k');
        any = true;
    }
    if m[60] == 11 && m[56] == 9 {
        fen.push('q');
        any = true;
    }
    if !any {
        fen.push('-');
    }
    push_text(&mut fen, " - 0 1");
    assert(fen@ =~= record_fen(r@));
    Unpacked { fen, score: read_le_i16(r, 24), result: r[26] }
}

/// The number of pieces in a record.
pub fn record_pieces(r: &[u8]) -> (n: u32)
    requires
        r@.len() == 32,
    ensures
        n == squares(record_occupancy(r@)).len(),
{
    popcount(read_le(r, 0, 8))
}

/// Tests whether a record can be read.
pub fn is_record(r: &[u8]) -> (b: bool)
    ensures
        b == record_ok(r@),
{
    if r.len() != 32 {
        return false;
    }
    let n: u32 = record_pieces(r);
    if n > 32 {
        return false;
    }
    let mut i: usize = 0;
    while i < n as usize
        invariant
            r@.len() == 32,
            n <= 32,
            i <= n,
            n == squares(record_occupancy(r@)).len(),
            forall|k: int| 0 <= k < i ==> #[trigger] bits_in(r@.subrange(8, 24), k) < 15,
        decreases n - i,
    {
        if read_bits(r, i) == 15 {
            return false;
        }
        i = i + 1;
    }
    true
}

// ---- Written and read back ----
/// A board that differs from another only on the squares that are still to be set.
proof fn board_restored(bb: u64, m: Seq<u8>, pcs: Seq<u8>, i: int, part: Seq<u8>)
    requires
        m.len() == 64,
        part.len() == 64,
        0 <= i,
        forall|s: int| 0 <= s < 64 && !member(bb, s) ==> #[trigger] part[s] == m[s],
        forall|s: int| 0 <= s < 64 && member(bb, s) ==> #[trigger] m[s] < 12,
        forall|k: int|
            0 <= k < squares(bb).len() ==> bits_in(pcs, i + k) == piece_bits(
                m[#[trigger] squares(bb)[k]] as int,
            ),
    ensures
        board_with(bb, pcs, i, part) == m,
    decreases bb,
{
    if bb == 0 {
        assert forall|s: int| 0 <= s < 64 implies part[s] == m[s] by {
            crate::bitboard::has_zero(s);
        }
        assert(part =~= m);
    } else {
        rest_facts(bb);
        lowest_facts(bb);
        let l = lowest(bb);
        assert(squares(bb)[0] == l);
        assert(bits_in(pcs, i) == piece_bits(m[l] as int));
        assert(bits_piece(piece_bits(m[l] as int)) == m[l]);
        let next = part.update(l, bits_piece(bits_in(pcs, i)) as u8);
        assert forall|k: int| 0 <= k < squares(rest(bb)).len() implies bits_in(pcs, i + 1 + k)
            == piece_bits(m[#[trigger] squares(rest(bb))[k]] as int) by {
            assert(squares(bb)[k + 1] == squares(rest(bb))[k]);
            assert(bits_in(pcs, i + (k + 1)) == piece_bits(m[squares(bb)[k + 1]] as int));
        }
        board_restored(rest(bb), m, pcs, i + 1, next);
    }
}

/// What is packed is read back: the record can be read, and gives the board, the
/// side to move and the score, as far as that is kept.
pub proof fn record_roundtrip(p: Position, score: int)
    requires
        p.wf_boards(),
        can_pack(p),
    ensures
        ({
            let r = packed(p, score);
            &&& record_ok(r)
            &&& record_board(r) == p.mailbox@
            &&& record_score(r) == clamped(score, -32000, 32000)
            &&& (r[29] % 2 == 1) == (p.side == Color::Black)
        }),
{
    let r = packed(p, score);
    let occ = occupancy(p);
    let m = p.mailbox@;
    packed_parts(p, score);
    codes_bounded(p);
    occupied_squares(p);
    crate::bitboard::squares_facts(occ);
    let b = bits_of(m, occ);
    let pcs = r.subrange(8, 24);
    assert forall|k: int| 0 <= k < squares(occ).len() implies bits_in(pcs, 0 + k) == piece_bits(
        m[#[trigger] squares(occ)[k]] as int,
    ) && bits_in(pcs, k) < 15 by {
        bits_kept(m, occ, k);
    }
    assert forall|i: int| 0 <= i < squares(record_occupancy(r)).len() implies #[trigger] bits_in(
        pcs,
        i,
    ) < 15 by {
        let s = squares(occ)[i];
    }
    let none = Seq::new(64, |s: int| EMPTY);
    board_restored(occ, m, pcs, 0, none);
}

proof fn bits_kept(m: Seq<u8>, occ: u64, k: int)
    requires
        m.len() == 64,
        0 <= k < squares(occ).len() <= 32,
        forall|s: int| 0 <= s < 64 && member(occ, s) ==> #[trigger] m[s] < 12,
    ensures
        bits_in(piece_bytes(bits_of(m, occ)), k) == piece_bits(m[squares(occ)[k]] as int),
        piece_bits(m[squares(occ)[k]] as int) < 15,
{
    crate::bitboard::squares_facts(occ);
    let b = bits_of(m, occ);
    let j = k / 2;
    assert(member(occ, squares(occ)[k]));
    assert(m[squares(occ)[k]] < 12);
    assert(0 <= b[k] <= 13);
    let other = if k % 2 == 0 {
        k + 1
    } else {
        k - 1
    };
    if other < b.len() {
        assert(member(occ, squares(occ)[other]));
        assert(m[squares(occ)[other]] < 12);
        assert(0 <= b[other] <= 13);
    }
    assert(0 <= bits_at(b, other) <= 13);
}

} // verus!
