//! Quiescence: captures, or all moves out of a check, until a position is quiet.

use crate::board::{behind, fits, Position};
use crate::decide::{cuts, score_from_tt, score_to_tt, seen_score, table_cuts, INFINITY, MATE_SCORE};
use crate::model::{
    bare, position_value, quiesced, quiesced_moves, quiet_order, quiet_orders, Stand,
};
use crate::movegen::{all_moves, capture_moves, generate_all, generate_captures};
use crate::nnue::{Accumulator, FeatureDelta};
use crate::ordering::{
    first_best, pick_move, see_at_least, see_ge, swapped, OrderingInputs, MAX_PLY,
};
use crate::play::{child_acc, clocks_after, delta_of, try_move};
use crate::rules::{
    all_moves_are_pseudo_legal, capture_moves_are_the_captures, legal, legal_moves,
    legal_moves_are_legal, playable, pseudo_legal, pseudo_legal_fits, sound_facts,
};
use crate::search::{bounded_score, count_node, evaluate_pos, halted, kept, ready, SearchInfo};
use crate::time::TimeManager;
use crate::tt::{
    found, short_key, SharedTT, TTEntry, FLAG_EXACT, FLAG_LOWER, FLAG_TYPE_MASK, FLAG_UPPER,
};
use crate::types::{on_board, piece_type, type_of, Move, MoveList, PieceType, UndoInfo};
use vstd::prelude::*;

verus! {

/// Every move of a list is pseudo-legal.
pub open spec fn all_pseudo_legal(p: Position, l: Seq<Move>) -> bool {
    forall|i: int| 0 <= i < l.len() ==> pseudo_legal(p, #[trigger] l[i])
}

/// Brings the best remaining move forward.
pub(crate) fn pick_pseudo(
    list: &mut MoveList,
    scores: &mut Vec<i32>,
    start: usize,
    Ghost(p): Ghost<Position>,
) -> (mv: Move)
    requires
        old(list).wf(),
        old(scores)@.len() == old(list)@.len(),
        start < old(list)@.len(),
        all_pseudo_legal(p, old(list)@),
    ensures
        final(list).wf(),
        final(list)@.len() == old(list)@.len(),
        final(scores)@.len() == old(scores)@.len(),
        all_pseudo_legal(p, final(list)@),
        pseudo_legal(p, mv),
        ({
            let k = first_best(old(scores)@, start as int);
            &&& start <= k < old(list)@.len()
            &&& mv == old(list)@[k]
            &&& final(list)@ == swapped(old(list)@, start as int, k)
            &&& final(scores)@ == swapped(old(scores)@, start as int, k)
            &&& final(scores)@[start as int] == old(scores)@[k]
        }),
{
    let ghost l0 = list@;
    let ghost s0 = scores@;
    let mv: Move = pick_move(list, scores, start);
    proof {
        let k = first_best(s0, start as int);
        assert forall|i: int| 0 <= i < list@.len() implies pseudo_legal(p, #[trigger] list@[i]) by {
            assert(pseudo_legal(p, l0[i]));
            assert(pseudo_legal(p, l0[k]));
            assert(pseudo_legal(p, l0[start as int]));
        }
        assert(pseudo_legal(p, l0[k]));
    }
    mv
}

/// An en passant capture lands in front of a square of the board.
pub(crate) proof fn ep_lands(p: Position, mv: Move)
    requires
        playable(p),
        pseudo_legal(p, mv),
    ensures
        mv.flag() == 5 ==> on_board(behind(p.side, mv.dst())),
{
    pseudo_legal_fits(p, mv);
    reveal(fits);
}

/// A legal move is in the list of legal moves.
pub(crate) proof fn has_legal_move(p: Position, mv: Move)
    requires
        playable(p),
        legal(p, mv),
    ensures
        legal_moves(p).len() > 0,
{
    sound_facts(p);
    legal_moves_are_legal(p, mv);
}

/// All pseudo-legal moves.
pub(crate) fn list_all(pos: &Position) -> (list: MoveList)
    requires
        playable(*pos),
    ensures
        list.wf(),
        list@ == all_moves(*pos),
        all_pseudo_legal(*pos, list@),
{
    proof {
        sound_facts(*pos);
    }
    let mut list: MoveList = MoveList::new();
    generate_all(pos, &mut list);
    proof {
        assert(list@ =~= all_moves(*pos));
        assert forall|i: int| 0 <= i < list@.len() implies pseudo_legal(*pos, #[trigger] list@[i]) by {
            all_moves_are_pseudo_legal(*pos, list@[i]);
            assert(all_moves(*pos).contains(list@[i]));
        }
    }
    list
}

/// All pseudo-legal captures.
pub(crate) fn list_captures(pos: &Position) -> (list: MoveList)
    requires
        playable(*pos),
    ensures
        list.wf(),
        list@ == capture_moves(*pos),
        all_pseudo_legal(*pos, list@),
{
    proof {
        sound_facts(*pos);
    }
    let mut list: MoveList = MoveList::new();
    generate_captures(pos, &mut list);
    proof {
        assert(list@ =~= capture_moves(*pos));
        assert forall|i: int| 0 <= i < list@.len() implies pseudo_legal(*pos, #[trigger] list@[i]) by {
            capture_moves_are_the_captures(*pos, list@[i]);
            assert(capture_moves(*pos).contains(list@[i]));
        }
    }
    list
}

/// The value by which captures are ordered: the victim first, then the attacker.
pub open spec fn exchange_order(p: Position, mv: Move) -> int {
    OrderingInputs::victim(p, mv).num() * 10 - type_of(
        p.mailbox@[mv.src()] as int,
    ).num()
}

pub(crate) fn capture_order(pos: &Position, mv: Move) -> (v: i32)
    ensures
        v == exchange_order(*pos, mv),
        -10 <= v <= 100,
{
    let victim: PieceType = if mv.is_ep() {
        PieceType::Pawn
    } else {
        piece_type(pos.mailbox[mv.to() as usize])
    };
    let attacker: PieceType = piece_type(pos.mailbox[mv.from() as usize]);
    victim.index() as i32 * 10 - attacker.index() as i32
}

/// The order of the moves in quiescence: the table's move, captures by their
/// pieces, quiet moves at 0.
pub(crate) fn quiescence_scores(pos: &Position, list: &MoveList, tt_move: Move) -> (scores: Vec<i32>)
    requires
        list.wf(),
    ensures
        scores@ == quiet_orders(*pos, list@, tt_move),
{
    let mut scores: Vec<i32> = Vec::new();
    let mut i: usize = 0;
    while i < list.len
        invariant
            list.wf(),
            i <= list@.len(),
            scores@.len() == i,
            forall|k: int|
                0 <= k < i ==> #[trigger] scores@[k] == quiet_order(*pos, tt_move, list@[k]),
        decreases list@.len() - i,
    {
        let mv: Move = list.moves[i];
        let s: i32 = if mv == tt_move {
            10_000_000
        } else if mv.is_capture() {
            capture_order(pos, mv)
        } else {
            0
        };
        scores.push(s);
        i = i + 1;
    }
    scores
}

/// The value of the piece on a square for pruning.
pub open spec fn prize(p: Position, s: int) -> int {
    match type_of(p.mailbox@[s] as int) {
        PieceType::Pawn => 100int,
        PieceType::Knight => 320,
        PieceType::Bishop => 330,
        PieceType::Rook => 500,
        PieceType::Queen => 1000,
        _ => 0,
    }
}

/// The capture is not worth a look: it cannot lift the score to alpha, or the
/// attacker is worth more than a victim other than a queen and the exchange loses.
pub open spec fn hopeless(p: Position, mv: Move, stand_pat: int, alpha: int) -> bool {
    let attacker = type_of(p.mailbox@[mv.src()] as int);
    let victim = OrderingInputs::victim(p, mv);
    ||| stand_pat + prize(p, mv.dst()) + 200 < alpha && !mv.promotes()
    ||| attacker.num() > victim.num() && victim != PieceType::Queen && !see_at_least(p, mv, 0)
}

pub(crate) fn victim_value(pos: &Position, mv: Move) -> (v: i32)
    ensures
        0 <= v <= 1000,
        v == prize(*pos, mv.dst()),
{
    match piece_type(pos.mailbox[mv.to() as usize]) {
        PieceType::Pawn => 100,
        PieceType::Knight => 320,
        PieceType::Bishop => 330,
        PieceType::Rook => 500,
        PieceType::Queen => 1000,
        _ => 0,
    }
}

pub(crate) fn skips_capture(pos: &Position, mv: Move, stand_pat: i32, alpha: i32) -> (b: bool)
    requires
        playable(*pos),
        pseudo_legal(*pos, mv),
        -430_000_000 <= stand_pat <= 430_000_000,
    ensures
        b == hopeless(*pos, mv, stand_pat as int, alpha as int),
{
    if stand_pat + victim_value(pos, mv) + 200 < alpha && !mv.is_promotion() {
        return true;
    }
    proof {
        ep_lands(*pos, mv);
    }
    let attacker: PieceType = piece_type(pos.mailbox[mv.from() as usize]);
    let victim: PieceType = if mv.is_ep() {
        PieceType::Pawn
    } else {
        piece_type(pos.mailbox[mv.to() as usize])
    };
    attacker.index() > victim.index() && victim != PieceType::Queen && !see_ge(pos, mv, 0)
}

// ---- Quiescence ----
/// The entry of the transposition table for a position.
pub open spec fn table_entry(tt: SharedTT, p: Position) -> Option<TTEntry> {
    found(tt.buckets@[tt.slot(p.hash)], short_key(p.hash))
}

/// Quiescence looks at all moves: the side to move is in check, and the line is
/// not too long for that.
pub open spec fn evades(p: Position, ply: int) -> bool {
    p.in_check() && ply < 80
}

/// The table decides quiescence at a ply.
pub open spec fn table_settles(tt: SharedTT, p: Position, ply: int, alpha: int, beta: int) -> bool {
    match table_entry(tt, p) {
        Some(e) => !evades(p, ply) && cuts(
            e.flag & FLAG_TYPE_MASK,
            seen_score(e.score as int, ply),
            alpha,
            beta,
        ),
        None => false,
    }
}

/// What is known of the result of quiescence: at the deepest ply it is the
/// evaluation; below it a deciding table entry gives the score; otherwise an
/// evaluation at or above beta does; and a side in check without a move is mated.
pub open spec fn quiet_result(
    info: SearchInfo,
    acc: Option<Accumulator>,
    p: Position,
    ply: int,
    alpha: int,
    beta: int,
    score: int,
) -> bool {
    let v = position_value(info.nnue, p);
    let settles = table_settles(info.tt, p, ply, alpha, beta);
    &&& ply == 127 ==> score == v
    &&& ply < 127 && settles ==> score == seen_score(
        table_entry(info.tt, p).unwrap().score as int,
        ply,
    )
    &&& ply < 127 && !settles && !evades(p, ply) && v >= beta ==> score == v
    &&& ply < 127 && evades(p, ply) && beta > -30000 && legal_moves(p).len() == 0 ==> score == ply
        - 29000
}

/// Searches captures, or all moves out of a check, until the position is quiet.
#[verifier::rlimit(40)]
pub fn quiescence(
    pos: &mut Position,
    info: &mut SearchInfo,
    tm: &TimeManager,
    acc: &Option<Accumulator>,
    alpha: i32,
    beta: i32,
    ply: usize,
) -> (score: i32)
    requires
        old(info).limit@ == tm.max_nodes,
        ply <= 127,
        ready(*old(pos), *old(info), *acc, ply as int),
        -500_000_000 <= alpha < beta <= 500_000_000,
    ensures
        *final(pos) == *old(pos),
        kept(*old(info), *final(info)),
        bounded_score(score as int),
        old(info).nodes < u64::MAX ==> final(info).nodes > old(info).nodes,
        !final(info).stopped ==> quiet_result(
            *old(info),
            *acc,
            *old(pos),
            ply as int,
            alpha as int,
            beta as int,
            score as int,
        ),
        old(info).undisturbed(*final(info)) ==> bare(final(info).mind(), score as int) == quiesced(
            old(info).mind(),
            *old(pos),
            alpha as int,
            beta as int,
            ply as int,
        ),
    decreases 128 - ply,
{
    proof {
        reveal(quiesced);
        reveal(quiesced_moves);
    }
    let ghost m = quiesced(old(info).mind(), *old(pos), alpha as int, beta as int, ply as int);
    if count_node(info, tm) {
        return 0;
    }
    if ply as i32 > info.seldepth {
        info.seldepth = ply as i32;
    }
    proof {
        sound_facts(*pos);
    }
    if ply >= MAX_PLY - 1 {
        return evaluate_pos(pos, &info.nnue, acc);
    }
    let in_check: bool = pos.is_in_check() && ply < 80;
    let mut tt_move: Move = Move::null();
    if let Some(entry) = info.tt.probe(pos.hash) {
        let s: i32 = score_from_tt(entry.score, ply as i32);
        tt_move = entry.best_move;
        if !in_check && table_cuts(entry.flag & FLAG_TYPE_MASK, s, alpha, beta) {
            return s;
        }
    }
    let stand_pat: i32 = if in_check {
        -INFINITY
    } else {
        evaluate_pos(pos, &info.nnue, acc)
    };
    if !in_check && stand_pat >= beta {
        return stand_pat;
    }
    let mut best: i32 = stand_pat;
    let mut a: i32 = alpha;
    if stand_pat > a {
        a = stand_pat;
    }
    if a >= beta {
        return best;
    }
    let mut list: MoveList = if in_check {
        list_all(pos)
    } else {
        list_captures(pos)
    };
    let mut scores: Vec<i32> = quiescence_scores(pos, &list, tt_move);
    let mut best_move: Move = Move::null();
    let mut legal_count: usize = 0;
    let ghost q = *pos;
    let ghost mut x = Stand {
        stand_pat: stand_pat as int,
        alpha: a as int,
        best: best as int,
        best_move,
        legal: 0,
    };
    let mut i: usize = 0;
    while i < list.len
        invariant
            ply < 127,
            *pos == q,
            q == *old(pos),
            ready(q, *info, *acc, ply as int),
            kept(*old(info), *info),
            old(info).limit@ == tm.max_nodes,
            old(info).nodes < u64::MAX ==> info.nodes > old(info).nodes,
            list.wf(),
            i <= list@.len(),
            legal_count <= i,
            scores@.len() == list@.len(),
            all_pseudo_legal(q, list@),
            -500_000_000 <= alpha <= a < beta <= 500_000_000,
            -430_000_000 <= stand_pat <= 430_000_000,
            bounded_score(best as int),
            in_check == evades(q, ply as int),
            legal_moves(q).len() == 0 ==> legal_count == 0,
            !in_check ==> !table_settles(
                old(info).tt,
                q,
                ply as int,
                alpha as int,
                beta as int,
            ) && position_value(old(info).nnue, q) < beta,
            m == quiesced(old(info).mind(), q, alpha as int, beta as int, ply as int),
            x == (Stand {
                stand_pat: stand_pat as int,
                alpha: a as int,
                best: best as int,
                best_move,
                legal: legal_count as int,
            }),
            old(info).undisturbed(*info) ==> m == quiesced_moves(
                info.mind(),
                q,
                alpha as int,
                beta as int,
                ply as int,
                list@,
                scores@,
                i as int,
                x,
            ),
        decreases list@.len() - i,
    {
        proof {
            reveal(quiesced);
            reveal(quiesced_moves);
        }
        let mv: Move = pick_pseudo(&mut list, &mut scores, i, Ghost(q));
        i = i + 1;
        if !in_check && skips_capture(pos, mv, stand_pat, a) {
            continue;
        }
        let delta: Option<FeatureDelta> = delta_of(&info.nnue, pos, mv);
        let undo: UndoInfo = match try_move(pos, mv) {
            Some(u) => u,
            None => {
                continue;
            },
        };
        legal_count = legal_count + 1;
        proof {
            clocks_after(q, mv, *pos, undo, 128 - ply);
            has_legal_move(q, mv);
        }
        let child: Option<Accumulator> = child_acc(
            &info.nnue,
            acc,
            &delta,
            pos,
            Ghost(q),
            Ghost(mv),
            Ghost(undo),
        );
        let score: i32 = -quiescence(pos, info, tm, &child, -beta, -a, ply + 1);
        pos.unmake_move(mv, undo);
        if halted(info, tm) {
            return 0;
        }
        if score > best {
            best = score;
        }
        if score >= beta {
            info.tt.store(
                pos.hash,
                0,
                FLAG_LOWER,
                beta - alpha > 1,
                score_to_tt(score, ply as i32),
                stand_pat as i16,
                mv,
            );
            return score;
        }
        if score > a {
            a = score;
            best_move = mv;
        }
        proof {
            x = Stand {
                stand_pat: stand_pat as int,
                alpha: a as int,
                best: best as int,
                best_move,
                legal: legal_count as int,
            };
        }
    }
    proof {
        reveal(quiesced_moves);
    }
    if in_check && legal_count == 0 {
        return -MATE_SCORE + ply as i32;
    }
    let kind: u8 = if a > alpha {
        FLAG_EXACT
    } else {
        FLAG_UPPER
    };
    let eval: i16 = if in_check {
        0
    } else {
        stand_pat as i16
    };
    info.tt.store(
        pos.hash,
        0,
        kind,
        beta - alpha > 1,
        score_to_tt(best, ply as i32),
        eval,
        best_move,
    );
    best
}

} // verus!
