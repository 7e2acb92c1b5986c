//! Move ordering: static exchange evaluation and the history heuristics.

use crate::attacks::{attack_set, attacks_of};
use crate::bitboard::{bit, bit_of, has_and, lowest, lowest_facts, lsb, member};
use crate::board::{behind, Position};
use crate::movegen::occupied;
use crate::num::{
    apply_gravity, at_least, bonus_of, clamp_i32, clamped, depth_bonus, gravity, min_i32, tdiv,
};
use crate::types::{on_board, piece_type, type_of, Color, Move, MoveList, PieceType, Square};
use vstd::prelude::*;

verus! {

pub const TT_SCORE: i32 = 10_000_000;

pub const GOOD_CAPTURE_BASE: i32 = 5_000_000;

pub const KILLER1_SCORE: i32 = 900_000;

pub const KILLER2_SCORE: i32 = 800_000;

pub const COUNTER_MOVE_SCORE: i32 = 700_000;

pub const BAD_CAPTURE: i32 = -1_000_000;

pub const MAX_PLY: usize = 128;

// ---- Static exchange evaluation ----
/// The value of a piece type in exchanges.
pub open spec fn see_value(t: int) -> int {
    if t == 0 {
        100
    } else if t == 1 {
        320
    } else if t == 2 {
        330
    } else if t == 3 {
        500
    } else if t == 4 {
        1000
    } else if t == 5 {
        20000
    } else {
        0
    }
}

fn see_val(pt: PieceType) -> (v: i32)
    ensures
        v == see_value(pt.num()),
        0 <= v <= 20000,
{
    match pt {
        PieceType::Pawn => 100,
        PieceType::Knight => 320,
        PieceType::Bishop => 330,
        PieceType::Rook => 500,
        PieceType::Queen => 1000,
        PieceType::King => 20000,
        PieceType::NoType => 0,
    }
}

/// All pieces of both sides that attack a square, given the occupied squares.
pub open spec fn attackers_of(p: Position, t: int, occ: u64) -> u64 {
    (attack_set(Color::Black, PieceType::Pawn, occ, t) & p.pieces@[0] & p.colors@[0]) | (attack_set(
        Color::White,
        PieceType::Pawn,
        occ,
        t,
    ) & p.pieces@[0] & p.colors@[1]) | (attack_set(Color::White, PieceType::Knight, occ, t)
        & p.pieces@[1]) | (attack_set(Color::White, PieceType::Bishop, occ, t) & (p.pieces@[2]
        | p.pieces@[4])) | (attack_set(Color::White, PieceType::Rook, occ, t) & (p.pieces@[3]
        | p.pieces@[4])) | (attack_set(Color::White, PieceType::King, occ, t) & p.pieces@[5])
}

fn attackers_to_sq(pos: &Position, sq: Square, occ: u64) -> (bb: u64)
    requires
        sq < 64,
    ensures
        bb == attackers_of(*pos, sq as int, occ),
{
    let bp: u64 = attacks_of(Color::Black, PieceType::Pawn, occ, sq);
    let wp: u64 = attacks_of(Color::White, PieceType::Pawn, occ, sq);
    let n: u64 = attacks_of(Color::White, PieceType::Knight, occ, sq);
    let b: u64 = attacks_of(Color::White, PieceType::Bishop, occ, sq);
    let r: u64 = attacks_of(Color::White, PieceType::Rook, occ, sq);
    let k: u64 = attacks_of(Color::White, PieceType::King, occ, sq);
    (bp & pos.pieces[0] & pos.colors[0]) | (wp & pos.pieces[0] & pos.colors[1]) | (n
        & pos.pieces[1]) | (b & (pos.pieces[2] | pos.pieces[4])) | (r & (pos.pieces[3]
        | pos.pieces[4])) | (k & pos.pieces[5])
}

/// The least valuable type among the pieces of a set; 5 if only kings are left.
pub open spec fn least_type(p: Position, bb: u64) -> int {
    if bb & p.pieces@[0] != 0 {
        0
    } else if bb & p.pieces@[1] != 0 {
        1
    } else if bb & p.pieces@[2] != 0 {
        2
    } else if bb & p.pieces@[3] != 0 {
        3
    } else if bb & p.pieces@[4] != 0 {
        4
    } else {
        5
    }
}

/// Attackers that appear behind a piece that left: diagonal ones behind a pawn,
/// bishop or queen, straight ones behind a rook or queen.
pub open spec fn uncovered(p: Position, t: int, occ: u64, pt: int) -> u64 {
    (if pt == 0 || pt == 2 || pt == 4 {
        attack_set(Color::White, PieceType::Bishop, occ, t) & (p.pieces@[2] | p.pieces@[4])
    } else {
        0
    }) | (if pt == 3 || pt == 4 {
        attack_set(Color::White, PieceType::Rook, occ, t) & (p.pieces@[3] | p.pieces@[4])
    } else {
        0
    })
}

/// What a side can win by capturing a piece of the value `v` on `t`. It captures
/// with its least valuable piece, which the other side may then capture in turn,
/// and need not capture at all. A king does not capture a defended piece.
pub open spec fn recapture(
    p: Position,
    t: int,
    occ: u64,
    attackers: u64,
    side: Color,
    v: int,
) -> int
    decreases occ,
{
    let a = attackers & occ;
    let mine = a & p.colors@[side.num()];
    let pt = least_type(p, mine);
    if mine == 0 || pt == 5 && a & p.colors@[side.other().num()] != 0 {
        0
    } else if pt == 5 {
        v
    } else {
        let from = lowest(mine & p.pieces@[pt]);
        let left = occ ^ bit_of(from);
        proof {
            taken_from(p, occ, attackers, side, pt);
        }
        at_least(
            v - recapture(
                p,
                t,
                left,
                a | uncovered(p, t, left, pt),
                side.other(),
                see_value(pt),
            ),
            0,
        )
    }
}

/// Who wins the exchange on `t`. `stm` captured last, `balance` is what it would be
/// ahead if its piece were lost for nothing, and `result` tells who wins if nobody
/// recaptures.
spec fn exchange(
    p: Position,
    t: int,
    occ: u64,
    attackers: u64,
    stm: Color,
    balance: int,
    result: bool,
) -> bool
    decreases occ,
{
    let s = stm.other();
    let a = attackers & occ;
    let mine = a & p.colors@[s.num()];
    let pt = least_type(p, mine);
    let b = -balance - 1 - see_value(pt);
    if mine == 0 {
        result
    } else if pt == 5 {
        if a & p.colors@[stm.num()] != 0 {
            result
        } else {
            !result
        }
    } else if b >= 0 {
        !result
    } else {
        let from = lowest(mine & p.pieces@[pt]);
        let occ2 = occ ^ bit_of(from);
        proof {
            taken_from(p, occ, attackers, s, pt);
        }
        exchange(p, t, occ2, a | uncovered(p, t, occ2, pt), s, b, !result)
    }
}

/// A side wins something between nothing and the piece that it captures.
proof fn recapture_bounds(p: Position, t: int, occ: u64, attackers: u64, side: Color, v: int)
    requires
        v >= 0,
    ensures
        0 <= recapture(p, t, occ, attackers, side, v) <= v,
    decreases occ,
{
    let a = attackers & occ;
    let mine = a & p.colors@[side.num()];
    let pt = least_type(p, mine);
    if mine != 0 && pt < 5 {
        let left = occ ^ bit_of(lowest(mine & p.pieces@[pt]));
        taken_from(p, occ, attackers, side, pt);
        recapture_bounds(
            p,
            t,
            left,
            a | uncovered(p, t, left, pt),
            side.other(),
            see_value(pt),
        );
    }
}

/// The exchange turns on whether the side to recapture wins more than the other
/// side is ahead.
proof fn exchange_decides(
    p: Position,
    t: int,
    occ: u64,
    attackers: u64,
    stm: Color,
    balance: int,
    result: bool,
    v: int,
)
    requires
        balance < 0 <= balance + v,
    ensures
        exchange(p, t, occ, attackers, stm, balance, result) == (if recapture(
            p,
            t,
            occ,
            attackers,
            stm.other(),
            v,
        ) > balance + v {
            !result
        } else {
            result
        }),
    decreases occ,
{
    let s = stm.other();
    let a = attackers & occ;
    let mine = a & p.colors@[s.num()];
    let pt = least_type(p, mine);
    let b = -balance - 1 - see_value(pt);
    if mine != 0 && pt < 5 {
        let left = occ ^ bit_of(lowest(mine & p.pieces@[pt]));
        let next = a | uncovered(p, t, left, pt);
        taken_from(p, occ, attackers, s, pt);
        recapture_bounds(p, t, left, next, stm, see_value(pt));
        assert(s.other() == stm);
        if b < 0 {
            exchange_decides(p, t, left, next, s, b, !result, see_value(pt));
        }
    }
}

/// The piece that recaptures stands on an occupied square.
pub proof fn taken_from(p: Position, occ: u64, attackers: u64, s: Color, pt: int)
    requires
        (attackers & occ) & p.colors@[s.num()] != 0,
        pt == least_type(p, (attackers & occ) & p.colors@[s.num()]),
        pt < 5,
    ensures
        ({
            let from = lowest(((attackers & occ) & p.colors@[s.num()]) & p.pieces@[pt]);
            occ ^ bit_of(from) < occ && 0 <= from < 64 && member(occ, from)
        }),
{
    let a = attackers & occ;
    let mine = a & p.colors@[s.num()];
    let x = mine & p.pieces@[pt];
    lowest_facts(x);
    let from = lowest(x);
    has_and(mine, p.pieces@[pt], from);
    has_and(a, p.colors@[s.num()], from);
    has_and(attackers, occ, from);
    smaller_without(occ, from);
}

/// Taking a square away makes the number smaller.
proof fn smaller_without(occ: u64, s: int)
    requires
        0 <= s < 64,
        member(occ, s),
    ensures
        occ ^ bit_of(s) < occ,
{
    reveal(member);
    let k = s as u64;
    assert(occ ^ (1u64 << k) < occ) by (bit_vector)
        requires
            k < 64,
            (occ >> k) & 1 == 1,
    ;
}

/// What a move gains at once.
pub open spec fn see_gain(p: Position, mv: Move) -> int {
    (if mv.flag() == 5 {
        100
    } else if mv.captures() {
        see_value(type_of(p.mailbox@[mv.dst()] as int).num())
    } else {
        0
    }) + (if mv.promotes() {
        see_value(mv.promo_type().num()) - 100
    } else {
        0
    })
}

/// What a move puts at stake.
pub open spec fn see_stake(p: Position, mv: Move) -> int {
    if mv.promotes() {
        see_value(mv.promo_type().num())
    } else {
        see_value(type_of(p.mailbox@[mv.src()] as int).num())
    }
}

/// The occupied squares while the pieces are exchanged: without the squares that
/// the move leaves and enters, and without a pawn taken en passant.
pub open spec fn see_occupied(p: Position, mv: Move) -> u64 {
    let o = (occupied(p) ^ bit_of(mv.src())) ^ bit_of(mv.dst());
    if mv.flag() == 5 {
        o ^ bit_of(behind(p.side, mv.dst()))
    } else {
        o
    }
}

/// What the exchange that a move starts is worth to the side that moves.
pub open spec fn see_worth(p: Position, mv: Move) -> int {
    let occ = see_occupied(p, mv);
    if mv.flag() == 2 || mv.flag() == 3 {
        0
    } else {
        see_gain(p, mv) - recapture(
            p,
            mv.dst(),
            occ,
            attackers_of(p, mv.dst(), occ),
            p.side.other(),
            see_stake(p, mv),
        )
    }
}

/// The exchange that a move starts is worth at least the threshold.
pub open spec fn see_at_least(p: Position, mv: Move, threshold: int) -> bool {
    see_worth(p, mv) >= threshold
}

/// Tests whether the exchange that a move starts is worth at least a threshold.
pub fn see_ge(pos: &Position, mv: Move, threshold: i32) -> (b: bool)
    requires
        -1_000_000_000 <= threshold <= 1_000_000_000,
        mv.flag() == 5 ==> on_board(behind(pos.side, mv.dst())),
    ensures
        b == see_at_least(*pos, mv, threshold as int),
{
    if mv.is_castle() {
        return threshold <= 0;
    }
    let from: Square = mv.from();
    let to: Square = mv.to();
    let mut balance: i32 = if mv.is_ep() {
        100
    } else if mv.is_capture() {
        see_val(piece_type(pos.mailbox[to as usize]))
    } else {
        0
    };
    if mv.is_promotion() {
        balance = balance + (see_val(mv.promo_piece_type()) - 100);
    }
    balance = balance - threshold;
    if balance < 0 {
        return false;
    }
    proof {
        let o = see_occupied(*pos, mv);
        recapture_bounds(
            *pos,
            mv.dst(),
            o,
            attackers_of(*pos, mv.dst(), o),
            pos.side.other(),
            see_stake(*pos, mv),
        );
    }
    let our_val: i32 = if mv.is_promotion() {
        see_val(mv.promo_piece_type())
    } else {
        see_val(piece_type(pos.mailbox[from as usize]))
    };
    balance = balance - our_val;
    if balance >= 0 {
        return true;
    }
    let mut occ: u64 = (pos.occupancy() ^ bit(from)) ^ bit(to);
    if mv.is_ep() {
        let cap: Square = if pos.side == Color::White {
            to - 8
        } else {
            to + 8
        };
        occ = occ ^ bit(cap);
    }
    let mut attackers: u64 = attackers_to_sq(pos, to, occ);
    let mut stm: Color = pos.side;
    let mut result: bool = true;
    let ghost goal = exchange(*pos, to as int, occ, attackers, stm, balance as int, result);
    proof {
        exchange_decides(
            *pos,
            to as int,
            occ,
            attackers,
            stm,
            balance as int,
            result,
            our_val as int,
        );
    }
    loop
        invariant_except_break
            -1_100_000_000 <= balance < 0,
            exchange(*pos, to as int, occ, attackers, stm, balance as int, result) == goal,
        invariant
            to < 64,
        ensures
            result == goal,
        decreases occ,
    {
        let side: Color = stm.flip();
        let a: u64 = attackers & occ;
        let mine: u64 = a & pos.colors[side.index()];
        if mine == 0 {
            break;
        }
        let pt: PieceType = if mine & pos.pieces[0] != 0 {
            PieceType::Pawn
        } else if mine & pos.pieces[1] != 0 {
            PieceType::Knight
        } else if mine & pos.pieces[2] != 0 {
            PieceType::Bishop
        } else if mine & pos.pieces[3] != 0 {
            PieceType::Rook
        } else if mine & pos.pieces[4] != 0 {
            PieceType::Queen
        } else {
            PieceType::King
        };
        if pt == PieceType::King {
            if a & pos.colors[stm.index()] == 0 {
                result = !result;
            }
            break;
        }
        balance = -balance - 1 - see_val(pt);
        if balance >= 0 {
            result = !result;
            break;
        }
        proof {
            taken_from(*pos, occ, attackers, side, pt.num());
        }
        let piece_bb: u64 = mine & pos.pieces[pt.index()];
        occ = occ ^ bit(lsb(piece_bb));
        let d: u64 = if pt == PieceType::Pawn || pt == PieceType::Bishop || pt == PieceType::Queen {
            attacks_of(Color::White, PieceType::Bishop, occ, to) & (pos.pieces[2] | pos.pieces[4])
        } else {
            0
        };
        let o: u64 = if pt == PieceType::Rook || pt == PieceType::Queen {
            attacks_of(Color::White, PieceType::Rook, occ, to) & (pos.pieces[3] | pos.pieces[4])
        } else {
            0
        };
        attackers = a | (d | o);
        stm = side;
        result = !result;
    }
    result
}

// ---- Killer moves: two for each ply ----
#[derive(Copy, Clone, PartialEq, Eq, Debug, Structural)]
pub struct KillerPair {
    pub first: Move,
    pub second: Move,
}

pub struct Killers {
    pub moves: Vec<KillerPair>,
}

/// The score of a killer move at a ply.
pub open spec fn killer_score(killers: Seq<KillerPair>, ply: int, mv: Move) -> Option<i32> {
    if ply >= MAX_PLY {
        None
    } else if killers[ply].first == mv {
        Some(KILLER1_SCORE)
    } else if killers[ply].second == mv {
        Some(KILLER2_SCORE)
    } else {
        None
    }
}

impl Killers {
    pub open spec fn wf(&self) -> bool {
        self.moves@.len() == MAX_PLY
    }

    pub fn new() -> (k: Killers)
        ensures
            k.wf(),
            forall|i: int| 0 <= i < MAX_PLY ==> #[trigger] k.moves@[i] == (KillerPair {
                first: Move(0),
                second: Move(0),
            }),
    {
        Killers { moves: vec![KillerPair { first: Move(0), second: Move(0) }; MAX_PLY] }
    }

    /// Remembers a move at a ply. A move that is already the first stays alone.
    pub fn store(&mut self, ply: usize, mv: Move)
        requires
            old(self).wf(),
        ensures
            final(self).wf(),
            final(self).moves@ == (if ply < MAX_PLY && old(self).moves@[ply as int].first != mv {
                old(self).moves@.update(ply as int, (KillerPair {
                    first: mv,
                    second: old(self).moves@[ply as int].first,
                }))
            } else {
                old(self).moves@
            }),
    {
        if ply >= MAX_PLY {
            return;
        }
        let k: KillerPair = self.moves[ply];
        if k.first != mv {
            self.moves.set(ply, KillerPair { first: mv, second: k.first });
        }
    }

    /// The score of a killer move at a ply.
    pub open spec fn score(&self, ply: int, mv: Move) -> Option<i32> {
        killer_score(self.moves@, ply, mv)
    }

    pub fn is_killer(&self, ply: usize, mv: Move) -> (r: Option<i32>)
        requires
            self.wf(),
        ensures
            r == self.score(ply as int, mv),
    {
        if ply >= MAX_PLY {
            return None;
        }
        let k: KillerPair = self.moves[ply];
        if k.first == mv {
            Some(KILLER1_SCORE)
        } else if k.second == mv {
            Some(KILLER2_SCORE)
        } else {
            None
        }
    }

    pub fn clear(&mut self)
        ensures
            final(self).wf(),
            forall|i: int|
                0 <= i < MAX_PLY ==> #[trigger] final(self).moves@[i] == (KillerPair {
                first: Move(0),
                second: Move(0),
            }),
    {
        *self = Self::new();
    }
}

/// All values of a history table lie within the history bounds.
pub open spec fn bounded(t: Seq<i32>) -> bool {
    forall|i: int| 0 <= i < t.len() ==> -16384 <= #[trigger] t[i] <= 16384
}

/// Every value halved, rounding towards zero.
pub open spec fn halved(t: Seq<i32>) -> Seq<i32> {
    Seq::new(t.len(), |i: int| tdiv(t[i] as int, 2) as i32)
}

fn halve(t: &mut Vec<i32>)
    requires
        bounded(old(t)@),
    ensures
        final(t)@ == halved(old(t)@),
        bounded(final(t)@),
{
    let mut i: usize = 0;
    while i < t.len()
        invariant
            i <= t@.len(),
            t@.len() == old(t)@.len(),
            bounded(old(t)@),
            forall|j: int| 0 <= j < i ==> #[trigger] t@[j] == halved(old(t)@)[j],
            forall|j: int| i <= j < t@.len() ==> #[trigger] t@[j] == old(t)@[j],
        decreases t@.len() - i,
    {
        let v: i32 = t[i];
        assert(-16384 <= old(t)@[i as int] <= 16384);
        t.set(i, v / 2);
        i = i + 1;
    }
    assert(t@ =~= halved(old(t)@));
}

// ---- History of quiet moves, by colour, origin and destination ----
pub struct History {
    pub table: Vec<i32>,
}

pub open spec fn history_index(c: Color, mv: Move) -> int {
    c.num() * 4096 + mv.src() * 64 + mv.dst()
}

impl History {
    pub open spec fn wf(&self) -> bool {
        self.table@.len() == 8192 && bounded(self.table@)
    }

    pub fn new() -> (h: History)
        ensures
            h.wf(),
            forall|i: int| 0 <= i < 8192 ==> #[trigger] h.table@[i] == 0,
    {
        History { table: vec![0; 8192] }
    }

    pub open spec fn value(&self, c: Color, mv: Move) -> int {
        self.table@[history_index(c, mv)] as int
    }

    pub fn get(&self, color: Color, mv: Move) -> (v: i32)
        requires
            self.wf(),
        ensures
            v == self.value(color, mv),
            -16384 <= v <= 16384,
    {
        let i: usize = color.index() * 4096 + mv.from() as usize * 64 + mv.to() as usize;
        assert(-16384 <= self.table@[i as int] <= 16384);
        self.table[i]
    }

    pub fn update(&mut self, color: Color, mv: Move, depth: i32, is_good: bool)
        requires
            old(self).wf(),
            -46_340 <= depth <= 46_340,
        ensures
            final(self).wf(),
            final(self).table@ == old(self).table@.update(
                history_index(color, mv),
                gravity(old(self).value(color, mv), depth_bonus(depth as int, is_good)) as i32,
            ),
    {
        let i: usize = color.index() * 4096 + mv.from() as usize * 64 + mv.to() as usize;
        assert(-16384 <= self.table@[i as int] <= 16384);
        let e: i32 = self.table[i];
        let b: i32 = bonus_of(depth, is_good);
        self.table.set(i, apply_gravity(e, b));
    }

    /// Halves all values.
    pub fn age(&mut self)
        requires
            old(self).wf(),
        ensures
            final(self).wf(),
            final(self).table@ == halved(old(self).table@),
    {
        halve(&mut self.table);
    }

    pub fn clear(&mut self)
        ensures
            final(self).wf(),
            forall|i: int| 0 <= i < 8192 ==> #[trigger] final(self).table@[i] == 0,
    {
        self.table = vec![0; 8192];
    }
}

// ---- Counter moves, by colour, piece type and destination ----
pub struct CounterMoves {
    pub table: Vec<Move>,
}

pub open spec fn counter_index(c: Color, pt: PieceType, to: int) -> int {
    (c.num() * 6 + pt.num()) * 64 + to
}

impl CounterMoves {
    pub open spec fn wf(&self) -> bool {
        self.table@.len() == 768
    }

    pub fn new() -> (c: CounterMoves)
        ensures
            c.wf(),
            forall|i: int| 0 <= i < 768 ==> #[trigger] c.table@[i] == Move(0),
    {
        CounterMoves { table: vec![Move(0); 768] }
    }

    pub fn get(&self, color: Color, pt: PieceType, to: Square) -> (m: Move)
        requires
            self.wf(),
            pt != PieceType::NoType,
            to < 64,
        ensures
            m == self.table@[counter_index(color, pt, to as int)],
    {
        self.table[(color.index() * 6 + pt.index()) * 64 + to as usize]
    }

    pub fn store(&mut self, color: Color, pt: PieceType, to: Square, mv: Move)
        requires
            old(self).wf(),
            pt != PieceType::NoType,
            to < 64,
        ensures
            final(self).wf(),
            final(self).table@ == old(self).table@.update(counter_index(color, pt, to as int), mv),
    {
        self.table.set((color.index() * 6 + pt.index()) * 64 + to as usize, mv);
    }

    pub fn clear(&mut self)
        ensures
            final(self).wf(),
            forall|i: int| 0 <= i < 768 ==> #[trigger] final(self).table@[i] == Move(0),
    {
        *self = Self::new();
    }
}

// ---- Continuation history, by the previous and the current piece and square ----
pub struct ContHistory {
    pub table: Vec<i32>,
}

pub open spec fn cont_index(ppt: PieceType, pto: int, pt: PieceType, to: int) -> int {
    ((ppt.num() * 64 + pto) * 6 + pt.num()) * 64 + to
}

impl ContHistory {
    pub open spec fn wf(&self) -> bool {
        self.table@.len() == 147456 && bounded(self.table@)
    }

    pub fn new() -> (h: ContHistory)
        ensures
            h.wf(),
            forall|i: int| 0 <= i < 147456 ==> #[trigger] h.table@[i] == 0,
    {
        ContHistory { table: vec![0; 147456] }
    }

    pub open spec fn value(&self, ppt: PieceType, pto: int, pt: PieceType, to: int) -> int {
        self.table@[cont_index(ppt, pto, pt, to)] as int
    }

    pub fn get(
        &self,
        prev_pt: PieceType,
        prev_to: Square,
        cur_pt: PieceType,
        cur_to: Square,
    ) -> (v: i32)
        requires
            self.wf(),
            prev_pt != PieceType::NoType,
            cur_pt != PieceType::NoType,
            prev_to < 64,
            cur_to < 64,
        ensures
            v == self.value(prev_pt, prev_to as int, cur_pt, cur_to as int),
            -16384 <= v <= 16384,
    {
        let i: usize = ((prev_pt.index() * 64 + prev_to as usize) * 6 + cur_pt.index()) * 64
            + cur_to as usize;
        assert(-16384 <= self.table@[i as int] <= 16384);
        self.table[i]
    }

    /// Applies a bonus, of which at most 400 counts either way.
    pub fn update(
        &mut self,
        prev_pt: PieceType,
        prev_to: Square,
        cur_pt: PieceType,
        cur_to: Square,
        bonus: i32,
    )
        requires
            old(self).wf(),
            prev_pt != PieceType::NoType,
            cur_pt != PieceType::NoType,
            prev_to < 64,
            cur_to < 64,
        ensures
            final(self).wf(),
            final(self).table@ == old(self).table@.update(
                cont_index(prev_pt, prev_to as int, cur_pt, cur_to as int),
                gravity(
                    old(self).value(prev_pt, prev_to as int, cur_pt, cur_to as int),
                    clamped(bonus as int, -400, 400),
                ) as i32,
            ),
    {
        let i: usize = ((prev_pt.index() * 64 + prev_to as usize) * 6 + cur_pt.index()) * 64
            + cur_to as usize;
        assert(-16384 <= self.table@[i as int] <= 16384);
        let e: i32 = self.table[i];
        let b: i32 = clamp_i32(bonus, -400, 400);
        self.table.set(i, apply_gravity(e, b));
    }

    pub fn age(&mut self)
        requires
            old(self).wf(),
        ensures
            final(self).wf(),
            final(self).table@ == halved(old(self).table@),
    {
        halve(&mut self.table);
    }

    pub fn clear(&mut self)
        ensures
            final(self).wf(),
            forall|i: int| 0 <= i < 147456 ==> #[trigger] final(self).table@[i] == 0,
    {
        *self = Self::new();
    }
}

// ---- Capture history, by attacker, destination and victim ----
pub struct CaptureHistory {
    pub table: Vec<i32>,
}

pub open spec fn capture_index(a: PieceType, to: int, v: PieceType) -> int {
    (a.num() * 64 + to) * 6 + v.num()
}

impl CaptureHistory {
    pub open spec fn wf(&self) -> bool {
        self.table@.len() == 2304 && bounded(self.table@)
    }

    pub fn new() -> (h: CaptureHistory)
        ensures
            h.wf(),
            forall|i: int| 0 <= i < 2304 ==> #[trigger] h.table@[i] == 0,
    {
        CaptureHistory { table: vec![0; 2304] }
    }

    pub open spec fn value(&self, a: PieceType, to: int, v: PieceType) -> int {
        self.table@[capture_index(a, to, v)] as int
    }

    pub fn get(&self, attacker: PieceType, to: Square, victim: PieceType) -> (v: i32)
        requires
            self.wf(),
            attacker != PieceType::NoType,
            victim != PieceType::NoType,
            to < 64,
        ensures
            v == self.value(attacker, to as int, victim),
            -16384 <= v <= 16384,
    {
        let i: usize = (attacker.index() * 64 + to as usize) * 6 + victim.index();
        assert(-16384 <= self.table@[i as int] <= 16384);
        self.table[i]
    }

    pub fn update(
        &mut self,
        attacker: PieceType,
        to: Square,
        victim: PieceType,
        depth: i32,
        is_good: bool,
    )
        requires
            old(self).wf(),
            attacker != PieceType::NoType,
            victim != PieceType::NoType,
            to < 64,
            -46_340 <= depth <= 46_340,
        ensures
            final(self).wf(),
            final(self).table@ == old(self).table@.update(
                capture_index(attacker, to as int, victim),
                gravity(
                    old(self).value(attacker, to as int, victim),
                    depth_bonus(depth as int, is_good),
                ) as i32,
            ),
    {
        let i: usize = (attacker.index() * 64 + to as usize) * 6 + victim.index();
        assert(-16384 <= self.table@[i as int] <= 16384);
        let e: i32 = self.table[i];
        let b: i32 = bonus_of(depth, is_good);
        self.table.set(i, apply_gravity(e, b));
    }

    pub fn age(&mut self)
        requires
            old(self).wf(),
        ensures
            final(self).wf(),
            final(self).table@ == halved(old(self).table@),
    {
        halve(&mut self.table);
    }

    pub fn clear(&mut self)
        ensures
            final(self).wf(),
            forall|i: int| 0 <= i < 2304 ==> #[trigger] final(self).table@[i] == 0,
    {
        *self = Self::new();
    }
}

// ---- Correction history, by colour and pawn structure ----
pub const CORR_HIST_SIZE: usize = 16384;


/// A sum of weighted differences and the sum of the weights.
#[derive(Copy, Clone, PartialEq, Eq, Debug, Structural)]
pub struct Correction {
    pub sum: i64,
    pub weight: i64,
}

pub struct CorrectionHistory {
    pub table: Vec<Correction>,
}

/// The weight is within its bounds, and the average within the largest correction.
pub open spec fn correction_ok(e: Correction) -> bool {
    &&& 0 <= e.weight <= 512
    &&& -8193 * e.weight <= e.sum <= 8193 * e.weight
    &&& e.weight > 0 ==> -8192 <= tdiv(e.sum as int, e.weight as int) <= 8192
}

/// The average that an entry stands for.
pub open spec fn correction_of(e: Correction) -> int {
    if e.weight == 0 {
        0
    } else {
        tdiv(e.sum as int, e.weight as int)
    }
}

pub open spec fn correction_index(c: Color, pawn_hash: u64) -> int {
    c.num() * 16384 + (pawn_hash % 16384) as int
}

/// An entry halved, once its weight is above 512.
pub open spec fn decayed(sum: int, weight: int) -> (int, int) {
    if weight > 512 {
        (tdiv(sum, 2), weight / 2)
    } else {
        (sum, weight)
    }
}

/// An entry after one more difference: added with its weight, decayed, and
/// limited to an average of the largest correction.
pub open spec fn corrected(e: Correction, diff: int, depth: int) -> (int, int) {
    let w = if depth < 16 {
        depth
    } else {
        16
    };
    let (sum, weight) = decayed(e.sum + diff * w, e.weight + w);
    if weight > 0 && tdiv(sum, weight) > 8192 {
        (8192 * weight, weight)
    } else if weight > 0 && tdiv(sum, weight) < -8192 {
        (-8192 * weight, weight)
    } else {
        (sum, weight)
    }
}

/// A quotient bounds its dividend.
proof fn quotient_bounds(s: int, w: int)
    requires
        w > 0,
    ensures
        tdiv(s, w) <= 8192 ==> s <= 8193 * w,
        tdiv(s, w) >= -8192 ==> s >= -8193 * w,
        tdiv(8192 * w, w) == 8192,
        tdiv(-8192 * w, w) == -8192,
{
    let q = tdiv(s, w);
    if s >= 0 {
        assert(s == w * (s / w) + s % w && 0 <= s % w < w) by {
            vstd::arithmetic::div_mod::lemma_fundamental_div_mod(s, w);
            vstd::arithmetic::div_mod::lemma_mod_bound(s, w);
        }
        if q <= 8192 {
            assert(w * q <= w * 8192) by (nonlinear_arith)
                requires
                    w > 0,
                    q <= 8192,
            ;
        }
        assert(-8193 * w <= 0) by (nonlinear_arith)
            requires
                w > 0,
        ;
    } else {
        let n = -s;
        assert(n == w * (n / w) + n % w && 0 <= n % w < w) by {
            vstd::arithmetic::div_mod::lemma_fundamental_div_mod(n, w);
            vstd::arithmetic::div_mod::lemma_mod_bound(n, w);
        }
        if q >= -8192 {
            assert(w * (n / w) <= w * 8192) by (nonlinear_arith)
                requires
                    w > 0,
                    n / w <= 8192,
            ;
        }
    }
    vstd::arithmetic::div_mod::lemma_div_by_multiple(8192, w);
    assert(8192 * w >= 0) by (nonlinear_arith)
        requires
            w > 0,
    ;
}

impl CorrectionHistory {
    pub open spec fn wf(&self) -> bool {
        &&& self.table@.len() == 32768
        &&& forall|i: int| 0 <= i < 32768 ==> correction_ok(#[trigger] self.table@[i])
    }

    pub fn new() -> (h: CorrectionHistory)
        ensures
            h.wf(),
            forall|i: int| 0 <= i < 32768 ==> #[trigger] h.table@[i] == (Correction { sum: 0, weight: 0 }),
    {
        CorrectionHistory { table: vec![Correction { sum: 0, weight: 0 }; 32768] }
    }

    fn slot(color: Color, pawn_hash: u64) -> (i: usize)
        ensures
            i == correction_index(color, pawn_hash),
            i < 32768,
    {
        color.index() * 16384 + (pawn_hash % 16384) as usize
    }

    /// The correction for a pawn structure, in centipawns.
    pub fn get(&self, color: Color, pawn_hash: u64) -> (v: i32)
        requires
            self.wf(),
        ensures
            v == correction_of(self.table@[correction_index(color, pawn_hash)]),
            -8192 <= v <= 8192,
    {
        let i: usize = Self::slot(color, pawn_hash);
        assert(correction_ok(self.table@[i as int]));
        let e: Correction = self.table[i];
        if e.weight == 0 {
            0
        } else {
            (e.sum / e.weight) as i32
        }
    }

    /// Learns that the search found `diff` more than the static evaluation.
    pub fn update(&mut self, color: Color, pawn_hash: u64, diff: i32, depth: i32)
        requires
            old(self).wf(),
            depth >= 0,
        ensures
            final(self).wf(),
            ({
                let i = correction_index(color, pawn_hash);
                let c = corrected(old(self).table@[i], diff as int, depth as int);
                final(self).table@ == old(self).table@.update(i, Correction { sum: c.0 as i64, weight: c.1 as i64 })
            }),
    {
        let i: usize = Self::slot(color, pawn_hash);
        assert(correction_ok(self.table@[i as int]));
        let e: Correction = self.table[i];
        let w: i64 = min_i32(depth, 16) as i64;
        let d: i64 = diff as i64;
        assert(-34359738368 <= d * w <= 34359738368) by (nonlinear_arith)
            requires
                -2147483648 <= d <= 2147483647,
                0 <= w <= 16,
        ;
        let mut sum: i64 = e.sum + d * w;
        let mut weight: i64 = e.weight + w;
        if weight > 512 {
            sum = sum / 2;
            weight = weight / 2;
        }
        if weight > 0 {
            let corr: i64 = sum / weight;
            proof {
                quotient_bounds(sum as int, weight as int);
            }
            if corr > 8192 {
                sum = 8192 * weight;
            } else if corr < -8192 {
                sum = -8192 * weight;
            }
        } else {
            assert(e.sum == 0);
            assert(d * w == 0) by (nonlinear_arith)
                requires
                    w == 0,
            ;
        }
        self.table.set(i, Correction { sum, weight });
    }

    pub fn clear(&mut self)
        ensures
            final(self).wf(),
            forall|i: int| 0 <= i < 32768 ==> #[trigger] final(self).table@[i] == (Correction { sum: 0, weight: 0 }),
    {
        *self = Self::new();
    }
}

// ---- Move scores ----
/// Most valuable victim first, least valuable attacker first.
pub open spec fn mvv_lva(victim: int, attacker: int) -> int {
    if victim == 5 {
        0
    } else {
        (victim + 1) * 10 + 5 - attacker
    }
}

/// The score by which a move is ordered: the table's move first, then good
/// captures and promotions, killers, the answer to the previous move, the other
/// quiet moves by their histories, and last the captures that lose material.
pub open spec fn order_of(
    p: Position,
    mv: Move,
    tt_move: Move,
    counter_move: Move,
    killer: Option<i32>,
    history: Seq<i32>,
    cont_history: Seq<i32>,
    capture_history: Seq<i32>,
    prev_pt: PieceType,
    prev_to: int,
) -> int {
    let v = OrderingInputs::victim(p, mv);
    let a = type_of(p.mailbox@[mv.src()] as int);
    if mv == tt_move {
        TT_SCORE as int
    } else if mv.captures() {
        (if OrderingInputs::good_capture(p, mv) {
            GOOD_CAPTURE_BASE as int
        } else {
            BAD_CAPTURE as int
        }) + mvv_lva(v.num(), a.num()) + tdiv(
            capture_history[capture_index(a, mv.dst(), v)] as int,
            32,
        )
    } else if mv.promotes() {
        GOOD_CAPTURE_BASE + 60
    } else {
        match killer {
            Some(k) => k as int,
            None => if mv == counter_move && counter_move.0 != 0 {
                COUNTER_MOVE_SCORE as int
            } else {
                history[history_index(p.side, mv)] + if prev_pt != PieceType::NoType {
                    cont_history[cont_index(prev_pt, prev_to, a, mv.dst())] as int
                } else {
                    0
                }
            },
        }
    }
}

/// What the scores of the moves of a position depend on.
pub struct OrderingInputs<'a> {
    pub tt_move: Move,
    pub killers: &'a Killers,
    pub history: &'a History,
    pub counter_move: Move,
    pub cont_history: &'a ContHistory,
    pub capture_history: &'a CaptureHistory,
    pub prev_pt: PieceType,
    pub prev_to: Square,
    pub ply: usize,
}

impl<'a> OrderingInputs<'a> {
    pub open spec fn wf(&self) -> bool {
        &&& self.killers.wf()
        &&& self.history.wf()
        &&& self.cont_history.wf()
        &&& self.capture_history.wf()
        &&& self.prev_pt != PieceType::NoType ==> self.prev_to < 64
    }

    /// The type of the piece that a move captures.
    pub open spec fn victim(p: Position, mv: Move) -> PieceType {
        if mv.flag() == 5 {
            PieceType::Pawn
        } else {
            type_of(p.mailbox@[mv.dst()] as int)
        }
    }

    /// The capture is tried early: it takes at least what it risks, takes a
    /// queen, or does not lose material.
    pub open spec fn good_capture(p: Position, mv: Move) -> bool {
        let v = OrderingInputs::victim(p, mv);
        let a = type_of(p.mailbox@[mv.src()] as int);
        a.num() <= v.num() || v == PieceType::Queen || see_at_least(p, mv, 0)
    }

    /// The score by which a move is ordered.
    pub open spec fn score(&self, p: Position, mv: Move) -> int {
        order_of(
            p,
            mv,
            self.tt_move,
            self.counter_move,
            killer_score(self.killers.moves@, self.ply as int, mv),
            self.history.table@,
            self.cont_history.table@,
            self.capture_history.table@,
            self.prev_pt,
            self.prev_to as int,
        )
    }

    fn score_capture(&self, pos: &Position, mv: Move) -> (s: i32)
        requires
            self.wf(),
            mv.captures(),
            mv != self.tt_move,
            mv.flag() == 5 ==> on_board(behind(pos.side, mv.dst())),
        ensures
            s == self.score(*pos, mv),
    {
        let victim_pt: PieceType = if mv.is_ep() {
            PieceType::Pawn
        } else {
            piece_type(pos.mailbox[mv.to() as usize])
        };
        let attacker_pt: PieceType = piece_type(pos.mailbox[mv.from() as usize]);
        let vi: i32 = victim_pt.index() as i32;
        let ai: i32 = attacker_pt.index() as i32;
        let mvv: i32 = if vi == 5 {
            0
        } else {
            (vi + 1) * 10 + 5 - ai
        };
        let cap_hist: i32 = self.capture_history.get(attacker_pt, mv.to(), victim_pt) / 32;
        if ai <= vi || victim_pt == PieceType::Queen || see_ge(pos, mv, 0) {
            GOOD_CAPTURE_BASE + mvv + cap_hist
        } else {
            BAD_CAPTURE + mvv + cap_hist
        }
    }

    /// Scores one move.
    pub fn score_move(&self, pos: &Position, mv: Move) -> (s: i32)
        requires
            self.wf(),
            mv.flag() == 5 ==> on_board(behind(pos.side, mv.dst())),
        ensures
            s == self.score(*pos, mv),
    {
        if mv == self.tt_move {
            return TT_SCORE;
        }
        if mv.is_capture() {
            return self.score_capture(pos, mv);
        }
        if mv.is_promotion() {
            return GOOD_CAPTURE_BASE + 60;
        }
        match self.killers.is_killer(self.ply, mv) {
            Some(k) => k,
            None => {
                if mv == self.counter_move && self.counter_move.0 != 0 {
                    COUNTER_MOVE_SCORE
                } else {
                    let h: i32 = self.history.get(pos.side, mv);
                    let ch: i32 = if self.prev_pt != PieceType::NoType {
                        let cur_pt: PieceType = piece_type(pos.mailbox[mv.from() as usize]);
                        self.cont_history.get(self.prev_pt, self.prev_to, cur_pt, mv.to())
                    } else {
                        0
                    };
                    h + ch
                }
            },
        }
    }
}

/// The scores of the moves of a list, in the same order.
pub fn score_moves(pos: &Position, list: &MoveList, inputs: &OrderingInputs) -> (scores: Vec<i32>)
    requires
        list.wf(),
        inputs.wf(),
        forall|i: int|
            0 <= i < list@.len() && (#[trigger] list@[i]).flag() == 5 ==> on_board(
                behind(pos.side, list@[i].dst()),
            ),
    ensures
        scores@.len() == list@.len(),
        forall|i: int|
            0 <= i < list@.len() ==> #[trigger] scores@[i] == inputs.score(*pos, list@[i]),
{
    let mut scores: Vec<i32> = Vec::new();
    let mut i: usize = 0;
    while i < list.len
        invariant
            i <= list@.len(),
            list.wf(),
            inputs.wf(),
            scores@.len() == i,
            forall|i: int|
                0 <= i < list@.len() && (#[trigger] list@[i]).flag() == 5 ==> on_board(
                    behind(pos.side, list@[i].dst()),
                ),
            forall|j: int| 0 <= j < i ==> #[trigger] scores@[j] == inputs.score(*pos, list@[j]),
        decreases list@.len() - i,
    {
        scores.push(inputs.score_move(pos, list.moves[i]));
        i = i + 1;
    }
    scores
}

/// The first index from `start` on at which the largest score stands.
pub open spec fn is_first_best(scores: Seq<i32>, start: int, k: int) -> bool {
    &&& start <= k < scores.len()
    &&& forall|j: int| start <= j < scores.len() ==> #[trigger] scores[j] <= scores[k]
    &&& forall|j: int| start <= j < k ==> #[trigger] scores[j] < scores[k]
}

/// The first index from `start` on at which the largest score stands.
pub open spec fn first_best(scores: Seq<i32>, start: int) -> int {
    choose|k: int| #[trigger] is_first_best(scores, start, k)
}

/// There is only one such index.
pub proof fn first_best_unique(scores: Seq<i32>, start: int, k: int)
    requires
        is_first_best(scores, start, k),
    ensures
        first_best(scores, start) == k,
{
    let j = first_best(scores, start);
    assert(is_first_best(scores, start, j));
    if j < k {
        assert(scores[j] < scores[k]);
    } else if k < j {
        assert(scores[k] < scores[j]);
    }
}

/// A list with two entries exchanged.
pub open spec fn swapped<T>(s: Seq<T>, i: int, j: int) -> Seq<T> {
    Seq::new(
        s.len(),
        |k: int|
            if k == i {
                s[j]
            } else if k == j {
                s[i]
            } else {
                s[k]
            },
    )
}

/// Brings the best of the remaining moves to the front: one step of a selection
/// sort.
pub fn pick_move(list: &mut MoveList, scores: &mut Vec<i32>, start: usize) -> (mv: Move)
    requires
        old(list).wf(),
        old(scores)@.len() == old(list)@.len(),
        start < old(list)@.len(),
    ensures
        final(list).wf(),
        ({
            let k = first_best(old(scores)@, start as int);
            &&& is_first_best(old(scores)@, start as int, k)
            &&& final(list)@ == swapped(old(list)@, start as int, k)
            &&& final(scores)@ == swapped(old(scores)@, start as int, k)
            &&& mv == old(list)@[k]
        }),
        final(list)@.len() == old(list)@.len(),
        final(scores)@.len() == old(scores)@.len(),
        mv == final(list)@[start as int],
{
    let mut best_idx: usize = start;
    let mut i: usize = start + 1;
    while i < list.len
        invariant
            start < i <= list@.len(),
            start <= best_idx < i,
            list.wf(),
            scores@.len() == list@.len(),
            forall|j: int| start <= j < i ==> #[trigger] scores@[j] <= scores@[best_idx as int],
            forall|j: int|
                start <= j < best_idx ==> #[trigger] scores@[j] < scores@[best_idx as int],
        decreases list@.len() - i,
    {
        if scores[i] > scores[best_idx] {
            best_idx = i;
        }
        i = i + 1;
    }
    proof {
        first_best_unique(scores@, start as int, best_idx as int);
    }
    let m0: Move = list.moves[start];
    let m1: Move = list.moves[best_idx];
    list.moves.set(start, m1);
    list.moves.set(best_idx, m0);
    let s0: i32 = scores[start];
    let s1: i32 = scores[best_idx];
    scores.set(start, s1);
    scores.set(best_idx, s0);
    m1
}

/// Exchanging two entries keeps what a list holds.
pub proof fn swap_keeps_members<T>(s: Seq<T>, i: int, j: int, x: T)
    requires
        0 <= i < s.len(),
        0 <= j < s.len(),
    ensures
        swapped(s, i, j).to_multiset() == s.to_multiset(),
        swapped(s, i, j).contains(x) == s.contains(x),
{
    broadcast use vstd::seq_lib::group_to_multiset_ensures;

    assert(swapped(s, i, j) =~= s.update(i, s[j]).update(j, s[i]));
    assert(swapped(s, i, j).to_multiset() =~= s.to_multiset());
    assert(swapped(s, i, j).contains(x) == swapped(s, i, j).to_multiset().contains(x));
    assert(s.contains(x) == s.to_multiset().contains(x));
}

} // verus!
