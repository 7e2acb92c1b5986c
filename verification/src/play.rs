//! Steps of a search: legal moves, null moves and their accumulators.

use crate::board::{after, made, Position};
use crate::movegen::mover_is_safe;
use crate::nnue::{
    bucket, compute_delta, flips, incremental_equals_refresh, king_bucket_info_with_stride, lane,
    move_applies, names_all, put_on, taken_off, threat_sum, threatens, updated, Accumulator,
    FeatureDelta, Nnue, NnueParams,
};
use crate::rules::{
    king_goes, kings_move, legal, move_keeps_sound, one_king, playable, pseudo_legal,
    pseudo_legal_fits, sound, sound_facts,
};
use crate::types::{
    file_of, on_board, piece_code, type_of, Color, Move, PieceType, Square, UndoInfo, NO_SQ,
};
use crate::zobrist::{ep_key, ep_square_key, side_key, turn_key};
use vstd::prelude::*;

verus! {

// ---- Lines of moves ----
/// The moves can be played one after the other.
pub open spec fn legal_line(p: Position, l: Seq<Move>) -> bool
    decreases l.len(),
{
    l.len() == 0 || (legal(p, l[0]) && legal_line(after(p, l[0]), l.drop_first()))
}

/// A legal move in front of a legal line gives a legal line.
pub proof fn line_extends(p: Position, mv: Move, l: Seq<Move>)
    requires
        legal(p, mv),
        legal_line(after(p, mv), l),
    ensures
        legal_line(p, seq![mv] + l),
{
    let x = seq![mv] + l;
    assert(x[0] == mv);
    assert(x.drop_first() =~= l);
}

/// A move and the line after it.
pub fn joined_line(mv: Move, rest: &Vec<Move>) -> (l: Vec<Move>)
    ensures
        l@ == seq![mv] + rest@,
{
    let mut l: Vec<Move> = Vec::new();
    l.push(mv);
    let mut i: usize = 0;
    assert(rest@.take(0) =~= Seq::empty());
    while i < rest.len()
        invariant
            i <= rest@.len(),
            l@ == seq![mv] + rest@.take(i as int),
        decreases rest@.len() - i,
    {
        l.push(rest[i]);
        assert(seq![mv] + rest@.take(i + 1) =~= (seq![mv] + rest@.take(i as int)).push(rest@[i as int]));
        i = i + 1;
    }
    assert(rest@.take(i as int) =~= rest@);
    l
}

// ---- Legal moves ----
/// Makes a pseudo-legal move if it is legal.
pub fn try_move(pos: &mut Position, mv: Move) -> (r: Option<UndoInfo>)
    requires
        playable(*old(pos)),
        pseudo_legal(*old(pos), mv),
        old(pos).clock_room(1),
    ensures
        match r {
            Some(u) => legal(*old(pos), mv) && made(*old(pos), mv, *final(pos), u) && *final(pos)
                == after(*old(pos), mv) && playable(*final(pos)),
            None => !legal(*old(pos), mv) && *final(pos) == *old(pos),
        },
{
    proof {
        sound_facts(*pos);
        pseudo_legal_fits(*pos, mv);
    }
    let undo: UndoInfo = pos.make_move(mv);
    proof {
        move_keeps_sound(*old(pos), mv, *pos, undo);
        sound_facts(*pos);
    }
    if mover_is_safe(pos) {
        Some(undo)
    } else {
        pos.unmake_move(mv, undo);
        None
    }
}

/// A pseudo-legal move is not the null move, and its flag is one of the known.
pub proof fn pseudo_legal_is_real(p: Position, mv: Move)
    requires
        p.wf_boards(),
        pseudo_legal(p, mv),
    ensures
        mv.0 != 0,
        mv.flag() != 6,
        mv.flag() != 7,
{
    reveal(pseudo_legal);
    crate::types::move_parts_roundtrip(mv);
    crate::board::codes_bounded(p);
    if mv.0 == 0 {
        crate::types::move_of_parts(0, 0, 0);
        assert(mv == Move::of(0, 0, 0));
    }
}

/// The clocks after a move.
pub proof fn clocks_after(p: Position, mv: Move, q: Position, u: UndoInfo, n: int)
    requires
        made(p, mv, q, u),
        p.clock_room(n),
    ensures
        q.clock_room(n - 1),
{
}

// ---- Null moves ----
/// What a null move overwrites.
#[derive(Clone, Copy)]
pub struct NullUndo {
    pub ep_square: Square,
    pub hash: u64,
}

/// The position in which the other side is to move.
pub open spec fn passed_turn(p: Position) -> Position {
    Position {
        side: p.side.other(),
        ep_square: NO_SQ,
        hash: p.hash ^ ep_square_key(p.ep_square as int) ^ turn_key(Color::Black),
        ..p
    }
}

proof fn turn_parts(a: u64, b: u64, c: u64, d: u64)
    by (bit_vector)
    ensures
        (a ^ (b ^ c ^ d)) ^ d ^ b == a ^ (0 ^ c ^ 0),
        (a ^ (0 ^ c ^ d)) ^ d ^ b == a ^ (b ^ c ^ 0),
        a ^ 0 == a,
{
}

/// Passing the turn gives a playable position unless the side to move is in check.
pub proof fn passing_is_playable(p: Position)
    requires
        playable(p),
        !p.in_check(),
    ensures
        playable(passed_turn(p)),
{
    let q = passed_turn(p);
    reveal(sound);
    let b = crate::board::board_hash(p.mailbox@, 64);
    let r = crate::zobrist::rights_key(p.castling.0 as int);
    turn_parts(b, turn_key(Color::Black), r, ep_square_key(p.ep_square as int));
    crate::types::flip_is_involution(p.side);
    assert(q.hash == b ^ q.state_hash());
}

/// Passes the turn.
pub fn make_null(pos: &mut Position) -> (u: NullUndo)
    requires
        playable(*old(pos)),
        !old(pos).in_check(),
    ensures
        *final(pos) == passed_turn(*old(pos)),
        playable(*final(pos)),
        u.ep_square == old(pos).ep_square,
        u.hash == old(pos).hash,
{
    proof {
        sound_facts(*pos);
        passing_is_playable(*pos);
        turn_parts(pos.hash, 0, 0, 0);
    }
    let u: NullUndo = NullUndo { ep_square: pos.ep_square, hash: pos.hash };
    if pos.ep_square != NO_SQ {
        pos.hash = pos.hash ^ ep_key(file_of(pos.ep_square));
    }
    pos.ep_square = NO_SQ;
    pos.side = pos.side.flip();
    pos.hash = pos.hash ^ side_key();
    u
}

/// Takes the turn back.
pub fn unmake_null(pos: &mut Position, u: NullUndo)
    ensures
        *final(pos) == (Position {
            side: old(pos).side.other(),
            ep_square: u.ep_square,
            hash: u.hash,
            ..*old(pos)
        }),
{
    pos.side = pos.side.flip();
    pos.ep_square = u.ep_square;
    pos.hash = u.hash;
}

/// Passing the turn twice by way of the undo information changes nothing.
pub proof fn null_is_undone(p: Position)
    ensures
        ({
            let q = passed_turn(p);
            Position { side: q.side.other(), ep_square: p.ep_square, hash: p.hash, ..q } == p
        }),
{
    crate::types::flip_is_involution(p.side);
}

// ---- Accumulators ----
/// The accumulator belongs to the position: it shows the position where a
/// network is loaded, and there is none otherwise.
pub open spec fn acc_fits(nnue: Nnue, acc: Option<Accumulator>, p: Position) -> bool {
    match nnue.params {
        Some(n) => nnue.usable() && (match acc {
            Some(a) => a.shows(*n, p),
            None => false,
        }),
        None => acc is None,
    }
}

/// The accumulator of a position, from scratch.
pub fn fresh_acc(nnue: &Nnue, pos: &Position) -> (r: Option<Accumulator>)
    requires
        nnue.params is Some ==> nnue.usable(),
        playable(*pos),
    ensures
        acc_fits(*nnue, r, *pos),
{
    if !nnue.is_loaded() {
        return None;
    }
    proof {
        sound_facts(*pos);
    }
    let mut a: Accumulator = Accumulator::new();
    nnue.refresh(pos, &mut a);
    Some(a)
}

/// The king buckets of an accumulator are those of the position.
fn buckets_hold(n: &NnueParams, a: &Accumulator, pos: &Position) -> (b: bool)
    requires
        n.wf(),
        playable(*pos),
    ensures
        b == (n.num_buckets > 1 ==> a.white_kb.0 == n.offset(*pos, Color::White) && a.white_kb.1
            == n.flip(*pos, Color::White) && a.black_kb.0 == n.offset(*pos, Color::Black)
            && a.black_kb.1 == n.flip(*pos, Color::Black)),
{
    if n.num_buckets <= 1 {
        return true;
    }
    proof {
        sound_facts(*pos);
    }
    let w: (usize, usize) = king_bucket_info_with_stride(
        pos.king_sq(Color::White),
        n.features_per_bucket,
    );
    let b: (usize, usize) = king_bucket_info_with_stride(
        pos.king_sq(Color::Black),
        n.features_per_bucket,
    );
    a.white_kb.0 == w.0 && a.white_kb.1 == w.1 && a.black_kb.0 == b.0 && a.black_kb.1 == b.1
}

/// The features that a move changes, where a network is loaded.
pub fn delta_of(nnue: &Nnue, pos: &Position, mv: Move) -> (d: Option<FeatureDelta>)
    requires
        playable(*pos),
        pseudo_legal(*pos, mv),
    ensures
        d is Some == nnue.params is Some,
        d matches Some(x) ==> names_all(x.removed@, taken_off(pos.mailbox@, pos.side, mv))
            && names_all(x.added@, put_on(pos.mailbox@, pos.side, mv)),
{
    if !nnue.is_loaded() {
        return None;
    }
    proof {
        sound_facts(*pos);
        pseudo_legal_fits(*pos, mv);
        pseudo_legal_is_real(*pos, mv);
    }
    Some(compute_delta(pos, mv))
}

/// The accumulator after a move: updated where the king buckets stay the same,
/// computed from scratch where they change or threats are counted.
pub(crate) fn child_acc(
    nnue: &Nnue,
    acc: &Option<Accumulator>,
    delta: &Option<FeatureDelta>,
    pos: &Position,
    Ghost(q): Ghost<Position>,
    Ghost(mv): Ghost<Move>,
    Ghost(u): Ghost<UndoInfo>,
) -> (r: Option<Accumulator>)
    requires
        playable(q),
        pseudo_legal(q, mv),
        made(q, mv, *pos, u),
        playable(*pos),
        acc_fits(*nnue, *acc, q),
        delta is Some == nnue.params is Some,
        delta matches Some(x) ==> names_all(x.removed@, taken_off(q.mailbox@, q.side, mv))
            && names_all(x.added@, put_on(q.mailbox@, q.side, mv)),
    ensures
        acc_fits(*nnue, r, *pos),
{
    let a: &Accumulator = match acc {
        Some(a) => a,
        None => {
            return None;
        },
    };
    let d: &FeatureDelta = match delta {
        Some(d) => d,
        None => {
            return None;
        },
    };
    let n = match &nnue.params {
        Some(n) => n,
        None => {
            return None;
        },
    };
    if (d.king_bucket_changed && nnue.is_bucketed()) || nnue.needs_full_refresh_per_move()
        || !buckets_hold(n, a, pos) {
        return fresh_acc(nnue, pos);
    }
    proof {
        sound_facts(q);
        move_applies(*nnue, *a, q, mv, *d);
    }
    let mut child: Accumulator = Accumulator::new();
    nnue.update_inc(a, &mut child, d);
    proof {
        pseudo_legal_is_real(q, mv);
        assert forall|c: Color| #[trigger] n.offset(*pos, c) == n.offset(q, c) by {
            match c {
                Color::White => {},
                Color::Black => {},
            }
        }
        assert forall|c: Color| #[trigger] n.flip(*pos, c) == n.flip(q, c) by {
            match c {
                Color::White => {},
                Color::Black => {},
            }
        }
        incremental_equals_refresh(nnue.net(), *a, child, *d, q, mv, *pos, u);
    }
    Some(child)
}

/// Where the bucket of the king that moves does not change, the features of both
/// sides keep their rows.
pub proof fn same_bucket_same_rows(n: NnueParams, q: Position, mv: Move, p: Position, u: UndoInfo)
    requires
        playable(q),
        pseudo_legal(q, mv),
        made(q, mv, p, u),
        one_king(q, Color::White),
        one_king(q, Color::Black),
        n.num_buckets > 1 && type_of(q.mailbox@[mv.src()] as int) == PieceType::King ==> bucket(
            mv.src(),
        ) == bucket(mv.dst()) && flips(mv.src()) == flips(mv.dst()),
    ensures
        forall|c: Color| #[trigger] n.offset(p, c) == n.offset(q, c),
        forall|c: Color| #[trigger] n.flip(p, c) == n.flip(q, c),
{
    kings_move(q, mv, p, u);
    assert forall|c: Color|
        bucket(#[trigger] p.king_square(c)) == bucket(q.king_square(c)) && flips(p.king_square(c))
            == flips(q.king_square(c)) || n.num_buckets <= 1 by {
        assert(p.king_square(c) == king_goes(q, mv, c));
        if c == q.side && type_of(q.mailbox@[mv.src()] as int) == PieceType::King {
            mover_is_owned(q, mv);
            assert(mv.src() == q.king_square(c));
        }
    }
}

/// The piece that a pseudo-legal move moves belongs to the side to move.
proof fn mover_is_owned(p: Position, mv: Move)
    requires
        playable(p),
        pseudo_legal(p, mv),
        type_of(p.mailbox@[mv.src()] as int) == PieceType::King,
    ensures
        on_board(mv.src()),
        p.mailbox@[mv.src()] == piece_code(p.side, PieceType::King),
{
    sound_facts(p);
    reveal(pseudo_legal);
    crate::types::move_parts_roundtrip(mv);
    crate::board::codes_bounded(p);
    crate::types::piece_code_roundtrip(p.side, PieceType::King, p.mailbox@[mv.src()] as int);
    crate::types::piece_code_roundtrip(p.side, PieceType::Pawn, p.mailbox@[mv.src()] as int);
}

/// Where the king's bucket does not change and no threats are counted, updating an
/// accumulator by the features that a move changes gives what a computation from
/// scratch gives.
pub proof fn update_equals_refresh(
    net: Nnue,
    parent: Accumulator,
    child: Accumulator,
    delta: FeatureDelta,
    q: Position,
    mv: Move,
    p: Position,
    u: UndoInfo,
)
    requires
        net.usable(),
        !net.net().has_threats,
        playable(q),
        pseudo_legal(q, mv),
        made(q, mv, p, u),
        net.net().num_buckets > 1 ==> one_king(q, Color::White) && one_king(q, Color::Black),
        parent.shows(net.net(), q),
        names_all(delta.removed@, taken_off(q.mailbox@, q.side, mv)),
        names_all(delta.added@, put_on(q.mailbox@, q.side, mv)),
        delta.king_bucket_changed == (type_of(q.mailbox@[mv.src()] as int) == PieceType::King && (
        bucket(mv.src()) != bucket(mv.dst()) || flips(mv.src()) != flips(mv.dst()))),
        !(delta.king_bucket_changed && net.net().num_buckets > 1),
        child.wf(),
        child.white_kb == parent.white_kb,
        child.black_kb == parent.black_kb,
        updated(net.net(), parent, child, delta, Color::White),
        updated(net.net(), parent, child, delta, Color::Black),
    ensures
        child.shows(net.net(), p),
{
    sound_facts(q);
    pseudo_legal_is_real(q, mv);
    if net.net().num_buckets > 1 {
        same_bucket_same_rows(net.net(), q, mv, p, u);
    }
    incremental_equals_refresh(net.net(), parent, child, delta, q, mv, p, u);
}

proof fn threats_by_boards(
    n: NnueParams,
    p: Position,
    q: Position,
    by: Color,
    c: Color,
    o: int,
    f: int,
    j: int,
    k: int,
)
    requires
        p.pieces == q.pieces,
        p.colors == q.colors,
    ensures
        threat_sum(n, p, by, c, o, f, j, k) == threat_sum(n, q, by, c, o, f, j, k),
    decreases k,
{
    if k > 0 {
        threats_by_boards(n, p, q, by, c, o, f, j, k - 1);
        assert(threatens(p, by, k - 1) == threatens(q, by, k - 1));
    }
}

/// An accumulator depends on the boards alone.
proof fn shows_by_boards(n: NnueParams, a: Accumulator, p: Position, q: Position)
    requires
        a.shows(n, p),
        p.pieces == q.pieces,
        p.colors == q.colors,
        p.mailbox == q.mailbox,
    ensures
        a.shows(n, q),
{
    assert forall|c: Color, j: int| #[trigger] lane(n, p, c, j) == lane(n, q, c, j) by {
        let o = n.offset(p, c);
        let f = n.flip(p, c);
        threats_by_boards(n, p, q, Color::White, c, o, f, j, 64);
        threats_by_boards(n, p, q, Color::Black, c, o, f, j, 64);
    }
}

/// The accumulator after a null move.
pub(crate) fn null_acc(
    nnue: &Nnue,
    acc: &Option<Accumulator>,
    Ghost(p): Ghost<Position>,
    Ghost(q): Ghost<Position>,
) -> (r: Option<Accumulator>)
    requires
        acc_fits(*nnue, *acc, p),
        p.pieces == q.pieces,
        p.colors == q.colors,
        p.mailbox == q.mailbox,
    ensures
        acc_fits(*nnue, r, q),
{
    match acc {
        Some(a) => {
            let mut child: Accumulator = Accumulator::new();
            nnue.copy_acc(a, &mut child);
            proof {
                let n = nnue.net();
                shows_by_boards(n, *a, p, q);
                assert forall|j: int| 0 <= j < n.hidden_size implies #[trigger] child.half(
                    Color::White,
                )[j] == lane(n, q, Color::White, j) by {
                    assert(a.half(Color::White)[j] == lane(n, q, Color::White, j));
                    assert(child.white@[j] == a.white@[j]);
                }
                assert forall|j: int| 0 <= j < n.hidden_size implies #[trigger] child.half(
                    Color::Black,
                )[j] == lane(n, q, Color::Black, j) by {
                    assert(a.half(Color::Black)[j] == lane(n, q, Color::Black, j));
                    assert(child.black@[j] == a.black@[j]);
                }
            }
            Some(child)
        },
        None => None,
    }
}

} // verus!
