//! The moves of a node: their order, extensions, reductions and what they teach.

use crate::board::{after, behind, Position};
use crate::decide::{
    bad_history, bound_kind, decisive, exchange_margin, is_futile, is_mate_score, kept_score,
    late_count, late_move_count, param, pawn_runs, score_to_tt, singular_candidate, INFINITY,
    MATE_IN_MAX, MATE_SCORE,
};
use crate::lmr::{lmr_reduction, LmrInputs};
use crate::model::{
    answers_after, bare, child_mind, earlier, extension_of, finished, history_after, late_depth,
    moves_searched, node_orders, noted, played, quiet_credited, remembered, scanned, scouted,
    searched, singled_out, skipped, stepped, tested, tried, weighed, Mind, Scan, Seen, Step,
};
use crate::nnue::{Accumulator, FeatureDelta};
use crate::nodes::{exclusion_rank, pvs, Node};
use crate::num::{at_most, depth_bonus, gravity};
use crate::ordering::{capture_index, first_best, score_moves, see_at_least, see_ge, OrderingInputs};
use crate::play::{
    child_acc, clocks_after, delta_of, joined_line, legal_line, line_extends, pseudo_legal_is_real,
    try_move,
};
use crate::quiet::{all_pseudo_legal, ep_lands, has_legal_move, list_all, pick_pseudo};
use crate::rules::{legal, legal_moves, playable, pseudo_legal, sound_facts};
use crate::search::{bounded_score, halted, kept, ready, Found, SearchInfo};
use crate::time::TimeManager;
use crate::tt::{new_entry, stored};
use crate::tune::{
    get, Tunables, HIST_PRUNE_DEPTH, HIST_PRUNE_MARGIN, SEE_CAP_MUL, SEE_DEPTH, SEE_QUIET_MUL,
    SE_MARGIN_MUL,
};
use crate::types::{
    on_board, piece_type, rank_of, type_of, Move, MoveList, PieceType, Square, UndoInfo, EMPTY,
};
use vstd::prelude::*;

verus! {

// ---- The moves of a node ----
/// The move neither captures nor promotes.
pub open spec fn quiet(mv: Move) -> bool {
    !mv.captures() && !mv.promotes()
}

pub(crate) fn is_quiet(mv: Move) -> (b: bool)
    ensures
        b == quiet(mv),
{
    !mv.is_capture() && !mv.is_promotion()
}

/// The move is pruned: it is a late, badly remembered or futile quiet move, or
/// its exchange loses too much for the depth. At the root, on the principal
/// variation, in check, while being mated and at the first move nothing is.
pub open spec fn prunes(
    t: Tunables,
    p: Position,
    node: Node,
    mv: Move,
    hist: int,
    searched: int,
    best: int,
    late: int,
    futile: bool,
) -> bool {
    &&& node.ply > 0 && !node.is_pv && !node.in_check && best > -28872 && searched > 0
    &&& {
        ||| quiet(mv) && searched >= late
        ||| quiet(mv) && node.depth <= param(t, HIST_PRUNE_DEPTH) && hist < -param(
            t,
            HIST_PRUNE_MARGIN,
        ) * node.depth
        ||| quiet(mv) && futile
        ||| node.depth <= param(t, SEE_DEPTH) && !see_at_least(
            p,
            mv,
            -node.depth * (if mv.captures() {
                param(t, SEE_CAP_MUL)
            } else {
                param(t, SEE_QUIET_MUL)
            }),
        )
    }
}

pub(crate) fn prunes_move(
    tune: &Tunables,
    pos: &Position,
    node: &Node,
    mv: Move,
    hist: i32,
    searched: usize,
    best: i32,
    late: i32,
    futile: bool,
) -> (b: bool)
    requires
        tune.in_range(),
        node.wf(),
        playable(*pos),
        pseudo_legal(*pos, mv),
        late >= 0,
    ensures
        b == prunes(
            *tune,
            *pos,
            *node,
            mv,
            hist as int,
            searched as int,
            best as int,
            late as int,
            futile,
        ),
{
    if node.ply == 0 || node.is_pv || node.in_check || best <= -MATE_IN_MAX || searched == 0 {
        return false;
    }
    if is_quiet(mv) {
        if searched >= late as usize {
            return true;
        }
        if bad_history(tune, node.depth, hist) {
            return true;
        }
        if futile {
            return true;
        }
    }
    if node.depth <= get(tune, SEE_DEPTH) {
        proof {
            ep_lands(*pos, mv);
        }
        return !see_ge(pos, mv, exchange_margin(tune, node.depth, mv.is_capture()));
    }
    false
}

/// What the search without the table's move shows.
#[derive(Clone, Copy, PartialEq, Eq, Structural, Debug)]
pub enum Singular {
    Halted,
    Cut(i32),
    Extend(i32),
}

/// Searches the node without the table's move, at half the depth, against a
/// score somewhat below that of the table. If all others fail the move is
/// singular; if they reach beta the node is cut.
#[verifier::rlimit(30)]
pub(crate) fn try_singular(
    pos: &mut Position,
    info: &mut SearchInfo,
    tm: &TimeManager,
    acc: &Option<Accumulator>,
    node: &Node,
    mv: Move,
    tt_score: i32,
) -> (r: (Singular, Vec<Move>))
    requires
        old(info).limit@ == tm.max_nodes,
        node.wf(),
        ready(*old(pos), *old(info), *acc, node.ply as int),
        node.excluded.0 == 0,
        pseudo_legal(*old(pos), mv),
        -33000 <= tt_score <= 33000,
    ensures
        *final(pos) == *old(pos),
        kept(*old(info), *final(info)),
        legal_line(*old(pos), r.1@),
        match r.0 {
            Singular::Halted => true,
            Singular::Cut(s) => bounded_score(s as int) && s >= node.beta,
            Singular::Extend(e) => -1 <= e <= 1,
        },
        old(info).undisturbed(*final(info)) ==> singled_out(
            old(info).mind(),
            *old(pos),
            *node,
            mv,
            tt_score as int,
        ) == (final(info).mind(), r.0, r.1@),
    decreases 128 - node.ply, exclusion_rank(node.excluded), 1int, 0int,
{
    proof {
        reveal(singled_out);
        reveal(searched);
    }
    let mul: i32 = get(&info.tune, SE_MARGIN_MUL);
    let d: i32 = node.depth;
    assert(0 <= d * mul <= 185_360) by (nonlinear_arith)
        requires
            0 <= d <= 46_340,
            0 <= mul <= 4,
    ;
    let goal: i32 = tt_score - d * mul;
    proof {
        sound_facts(*pos);
        pseudo_legal_is_real(*pos, mv);
    }
    let f: Found = pvs(
        pos,
        info,
        tm,
        acc,
        goal - 1,
        goal,
        (d - 1) / 2,
        node.ply,
        false,
        mv,
        node.cut_node,
    );
    let verdict: Singular = if halted(info, tm) {
        Singular::Halted
    } else if f.score < goal {
        Singular::Extend(1)
    } else if f.score >= node.beta {
        Singular::Cut(f.score)
    } else if node.cut_node {
        Singular::Extend(-1)
    } else {
        Singular::Extend(0)
    };
    (verdict, f.line)
}

/// Searches the position after a move with a closed window: late quiet moves at a
/// reduced depth, and again at the full depth where they rise above alpha. The
/// first move of the principal variation is left out.
#[verifier::rlimit(40)]
fn scout(
    pos: &mut Position,
    info: &mut SearchInfo,
    tm: &TimeManager,
    acc: &Option<Accumulator>,
    node: &Node,
    mv: Move,
    depth: i32,
    alpha: i32,
    number: usize,
    hist: i32,
) -> (f: Found)
    requires
        old(info).limit@ == tm.max_nodes,
        node.wf(),
        ready(*old(pos), *old(info), *acc, node.ply + 1),
        node.depth - 2 <= depth <= node.depth,
        node.alpha <= alpha < node.beta,
        number >= 1,
    ensures
        *final(pos) == *old(pos),
        kept(*old(info), *final(info)),
        bounded_score(f.score as int),
        legal_line(*old(pos), f.line@),
        old(info).undisturbed(*final(info)) ==> f.seen(final(info).mind()) == scouted(
            old(info).mind(),
            *old(pos),
            *node,
            mv,
            depth as int,
            alpha as int,
            number as int,
            hist as int,
        ),
    decreases 128 - node.ply, exclusion_rank(node.excluded), 0int, 0int,
{
    let ghost m = old(info).mind();
    let ghost q = *pos;
    let null: Move = Move::null();
    if number > 3 && node.depth >= 3 && is_quiet(mv) && !node.in_check {
        proof {
            sound_facts(*pos);
        }
        let x: LmrInputs = LmrInputs {
            depth: node.depth,
            moves_searched: number,
            on_pv: node.is_pv || node.tt_pv,
            improving: node.improving,
            hist_score: hist,
            cut_node: node.cut_node,
            static_eval: node.static_eval,
            alpha,
            gives_check: pos.is_in_check(),
        };
        let r: i32 = lmr_reduction(&info.lmr, &info.tune, &x);
        let reduced: i32 = if depth - r < 1 {
            1
        } else {
            depth - r
        };
        let ghost d = late_depth(
            m,
            q,
            *node,
            depth as int,
            alpha as int,
            number as int,
            hist as int,
        );
        assert(reduced == d);
        let ghost a = searched(
            m,
            q,
            -alpha - 1,
            -alpha,
            d,
            node.ply + 1,
            false,
            Move(0),
            !node.cut_node,
        );
        assert(scouted(
            m,
            q,
            *node,
            mv,
            depth as int,
            alpha as int,
            number as int,
            hist as int,
        ) == if -a.score > alpha && d < depth {
            searched(
                a.mind,
                q,
                -alpha - 1,
                -alpha,
                depth as int,
                node.ply + 1,
                false,
                Move(0),
                !node.cut_node,
            )
        } else {
            a
        }) by {
            reveal(scouted);
            reveal(searched);
        }
        let f: Found = pvs(
            pos,
            info,
            tm,
            acc,
            -alpha - 1,
            -alpha,
            reduced,
            node.ply + 1,
            false,
            null,
            !node.cut_node,
        );
        if -f.score > alpha && reduced < depth {
            return pvs(
                pos,
                info,
                tm,
                acc,
                -alpha - 1,
                -alpha,
                depth,
                node.ply + 1,
                false,
                null,
                !node.cut_node,
            );
        }
        return f;
    }
    assert(scouted(
        m,
        q,
        *node,
        mv,
        depth as int,
        alpha as int,
        number as int,
        hist as int,
    ) == if !node.is_pv || number > 1 {
        searched(
            m,
            q,
            -alpha - 1,
            -alpha,
            depth as int,
            node.ply + 1,
            false,
            Move(0),
            !node.cut_node,
        )
    } else {
        bare(m, -alpha - 1)
    }) by {
        reveal(scouted);
        reveal(searched);
    }
    if !node.is_pv || number > 1 {
        return pvs(
            pos,
            info,
            tm,
            acc,
            -alpha - 1,
            -alpha,
            depth,
            node.ply + 1,
            false,
            null,
            !node.cut_node,
        );
    }
    Found { score: -alpha - 1, line: Vec::new() }
}

/// Makes a move and searches what follows, if the move is legal. Where it rises
/// above alpha on the principal variation, and for the first move there, the
/// window is opened.
#[verifier::rlimit(40)]
fn play_child(
    pos: &mut Position,
    info: &mut SearchInfo,
    tm: &TimeManager,
    acc: &Option<Accumulator>,
    node: &Node,
    mv: Move,
    extension: i32,
    alpha: i32,
    number: usize,
    hist: i32,
) -> (r: Option<Found>)
    requires
        old(info).limit@ == tm.max_nodes,
        node.wf(),
        ready(*old(pos), *old(info), *acc, node.ply as int),
        pseudo_legal(*old(pos), mv),
        -1 <= extension <= 1,
        node.alpha <= alpha < node.beta,
        number >= 1,
    ensures
        *final(pos) == *old(pos),
        kept(*old(info), *final(info)),
        match r {
            Some(f) => legal(*old(pos), mv) && bounded_score(f.score as int) && legal_line(
                *old(pos),
                seq![mv] + f.line@,
            ),
            None => !legal(*old(pos), mv) && *final(info) == *old(info),
        },
        old(info).undisturbed(*final(info)) ==> played(
            old(info).mind(),
            *old(pos),
            *node,
            mv,
            extension as int,
            alpha as int,
            number as int,
            hist as int,
        ) == match r {
            Some(f) => Some(f.seen(final(info).mind())),
            None => None,
        },
    decreases 128 - node.ply, exclusion_rank(node.excluded), 0int, 1int,
{
    let ghost q = *pos;
    let ghost m = old(info).mind();
    let ghost k = child_mind(m, q, *node, mv);
    let ghost c = after(q, mv);
    let ghost b = scouted(
        k,
        c,
        *node,
        mv,
        node.depth - 1 + extension,
        alpha as int,
        number as int,
        hist as int,
    );
    let ghost e = if node.is_pv && (number == 1 || -b.score > alpha) {
        searched(
            b.mind,
            c,
            -node.beta,
            -alpha,
            node.depth - 1 + extension,
            node.ply + 1,
            false,
            Move(0),
            false,
        )
    } else {
        b
    };
    assert(played(
        m,
        q,
        *node,
        mv,
        extension as int,
        alpha as int,
        number as int,
        hist as int,
    ) == if !legal(q, mv) {
        None
    } else {
        Some(Seen { mind: e.mind.popped(), score: -e.score, line: e.line })
    }) by {
        reveal(played);
        reveal(scouted);
        reveal(searched);
    }
    let delta: Option<FeatureDelta> = delta_of(&info.nnue, pos, mv);
    let undo: UndoInfo = match try_move(pos, mv) {
        Some(u) => u,
        None => {
            return None;
        },
    };
    proof {
        clocks_after(q, mv, *pos, undo, 128 - node.ply);
    }
    let ghost history = info.hash_history@;
    let child: Option<Accumulator> = child_acc(
        &info.nnue,
        acc,
        &delta,
        pos,
        Ghost(q),
        Ghost(mv),
        Ghost(undo),
    );
    info.hash_history.push(pos.hash);
    let moved: u8 = pos.mailbox[mv.to() as usize];
    let moved_pt: PieceType = if mv.is_promotion() {
        mv.promo_piece_type()
    } else if moved != EMPTY {
        piece_type(moved)
    } else {
        PieceType::NoType
    };
    info.move_stack.set(node.ply, mv);
    info.piece_stack.set(node.ply, moved_pt);
    assert(info.mind() == k);
    let depth: i32 = node.depth - 1 + extension;
    let mut f: Found = scout(pos, info, tm, &child, node, mv, depth, alpha, number, hist);
    if node.is_pv && (number == 1 || -f.score > alpha) {
        f =
        pvs(
            pos,
            info,
            tm,
            &child,
            -node.beta,
            -alpha,
            depth,
            node.ply + 1,
            false,
            Move::null(),
            false,
        );
    }
    pos.unmake_move(mv, undo);
    let _ = info.hash_history.pop();
    proof {
        assert(info.hash_history@ =~= history);
        line_extends(q, mv, f.line@);
    }
    Some(Found { score: -f.score, line: f.line })
}

/// Remembers a quiet move that cut the node: as a killer, as the answer to the
/// previous move, and in the histories, where the other quiet moves lose.
#[verifier::rlimit(30)]
pub(crate) fn credit_quiet(
    info: &mut SearchInfo,
    pos: &Position,
    node: &Node,
    mv: Move,
    quiets: &Vec<Move>,
    prev: (PieceType, Square),
    before: (PieceType, Square),
)
    requires
        node.wf(),
        old(info).wf(),
        prev.1 < 64,
        before.1 < 64,
    ensures
        kept(*old(info), *final(info)),
        final(info).stopped == old(info).stopped,
        final(info).mind() == quiet_credited(
            old(info).mind(),
            *pos,
            *node,
            mv,
            quiets@,
            (prev.0, prev.1 as int),
            (before.0, before.1 as int),
        ),
{
    info.killers.store(node.ply, mv);
    info.history.update(pos.side, mv, node.depth, true);
    let d: i32 = node.depth;
    assert(0 <= d * d <= 2_147_395_600) by (nonlinear_arith)
        requires
            0 <= d <= 46_340,
    ;
    let bonus: i32 = d * d;
    let pt: PieceType = piece_type(pos.mailbox[mv.from() as usize]);
    if prev.0 != PieceType::NoType {
        info.counter_moves.store(pos.side.flip(), prev.0, prev.1, mv);
        info.cont_history.update(prev.0, prev.1, pt, mv.to(), bonus);
    }
    if before.0 != PieceType::NoType {
        info.cont_history_2.update(before.0, before.1, pt, mv.to(), bonus);
    }
    let ghost a = (prev.0, prev.1 as int);
    let ghost b = (before.0, before.1 as int);
    let ghost m = old(info).mind();
    let ghost k = *info;
    let ghost small = at_most(d * d, 400);
    let mut i: usize = 0;
    while i < quiets.len()
        invariant
            node.wf(),
            d == node.depth,
            bonus == d * d,
            0 <= bonus <= 2_147_395_600,
            small == at_most(bonus as int, 400),
            prev.1 < 64,
            before.1 < 64,
            a == (prev.0, prev.1 as int),
            b == (before.0, before.1 as int),
            i <= quiets@.len(),
            kept(*old(info), *info),
            *info == (SearchInfo {
                history: info.history,
                cont_history: info.cont_history,
                cont_history_2: info.cont_history_2,
                ..k
            }),
            info.history.table@ == history_after(
                m.history,
                pos.side,
                depth_bonus(d as int, true),
                quiets@,
                mv,
                i as int,
            ),
            info.cont_history.table@ == answers_after(m.cont, *pos, a, small, quiets@, mv, i as int),
            info.cont_history_2.table@ == answers_after(
                m.cont2,
                *pos,
                b,
                small,
                quiets@,
                mv,
                i as int,
            ),
        decreases quiets@.len() - i,
    {
        let m: Move = quiets[i];
        if m != mv {
            info.history.update(pos.side, m, d, false);
            let mpt: PieceType = piece_type(pos.mailbox[m.from() as usize]);
            if prev.0 != PieceType::NoType {
                info.cont_history.update(prev.0, prev.1, mpt, m.to(), -bonus);
            }
            if before.0 != PieceType::NoType {
                info.cont_history_2.update(before.0, before.1, mpt, m.to(), -bonus);
            }
        }
        i = i + 1;
    }
}

/// Remembers a capture that cut the node.
pub(crate) fn credit_capture(info: &mut SearchInfo, pos: &Position, node: &Node, mv: Move)
    requires
        node.wf(),
        old(info).wf(),
    ensures
        kept(*old(info), *final(info)),
        ({
            let a = type_of(pos.mailbox@[mv.src()] as int);
            let v = OrderingInputs::victim(*pos, mv);
            let k = capture_index(a, mv.dst(), v);
            let t = old(info).capture_history.table@;
            *final(info) == (SearchInfo {
                capture_history: final(info).capture_history,
                ..*old(info)
            }) && final(info).capture_history.table@ == t.update(
                k,
                gravity(t[k] as int, depth_bonus(node.depth as int, true)) as i32,
            )
        }),
{
    let victim: PieceType = if mv.is_ep() {
        PieceType::Pawn
    } else {
        piece_type(pos.mailbox[mv.to() as usize])
    };
    let attacker: PieceType = piece_type(pos.mailbox[mv.from() as usize]);
    info.capture_history.update(attacker, mv.to(), victim, node.depth, true);
}

/// Notes a root move: how many there are, and the best score but one.
pub(crate) fn note_root_move(info: &mut SearchInfo, score: i32, best: i32)
    requires
        old(info).wf(),
    ensures
        kept(*old(info), *final(info)),
        *final(info) == (SearchInfo {
            root_moves_count: if old(info).root_moves_count < u32::MAX {
                (old(info).root_moves_count + 1) as u32
            } else {
                u32::MAX
            },
            root_second_best: if score > best {
                if best != -30000 && best > old(info).root_second_best {
                    best
                } else {
                    old(info).root_second_best
                }
            } else if score > old(info).root_second_best {
                score
            } else {
                old(info).root_second_best
            },
            ..*old(info)
        }),
{
    if info.root_moves_count < u32::MAX {
        info.root_moves_count = info.root_moves_count + 1;
    }
    if score > best {
        if best != -INFINITY && best > info.root_second_best {
            info.root_second_best = best;
        }
    } else if score > info.root_second_best {
        info.root_second_best = score;
    }
}

/// The piece and the square of an earlier move of the line.
pub(crate) fn earlier_move(info: &SearchInfo, ply: usize, back: usize) -> (r: (PieceType, Square))
    requires
        info.wf(),
        ply < 127,
        back >= 1,
    ensures
        r.1 < 64,
        r.0 == (if ply >= back {
            info.piece_stack@[ply - back]
        } else {
            PieceType::NoType
        }),
        r.1 == (if ply >= back {
            info.move_stack@[ply - back].dst()
        } else {
            0
        }),
        (r.0, r.1 as int) == earlier(info.mind(), ply as int, back as int),
{
    if ply >= back {
        (info.piece_stack[ply - back], info.move_stack[ply - back].to())
    } else {
        (PieceType::NoType, 0)
    }
}

/// The order of the moves of a node.
pub(crate) fn node_scores(
    info: &SearchInfo,
    pos: &Position,
    list: &MoveList,
    node: &Node,
    prev: (PieceType, Square),
) -> (scores: Vec<i32>)
    requires
        info.wf(),
        list.wf(),
        playable(*pos),
        all_pseudo_legal(*pos, list@),
        prev.1 < 64,
        node.wf(),
    ensures
        scores@ == node_orders(info.mind(), *pos, *node, (prev.0, prev.1 as int), list@),
{
    let counter_move: Move = if prev.0 != PieceType::NoType {
        info.counter_moves.get(pos.side.flip(), prev.0, prev.1)
    } else {
        Move::null()
    };
    let inputs: OrderingInputs = OrderingInputs {
        tt_move: node.tt_move,
        killers: &info.killers,
        history: &info.history,
        counter_move,
        cont_history: &info.cont_history,
        capture_history: &info.capture_history,
        prev_pt: prev.0,
        prev_to: prev.1,
        ply: node.ply,
    };
    proof {
        assert forall|i: int| 0 <= i < list@.len() && (#[trigger] list@[i]).flag() == 5 implies on_board(
            behind(pos.side, list@[i].dst()),
        ) by {
            ep_lands(*pos, list@[i]);
        }
    }
    let scores: Vec<i32> = score_moves(pos, list, &inputs);
    assert(scores@ =~= node_orders(info.mind(), *pos, *node, (prev.0, prev.1 as int), list@));
    scores
}

/// What has been found among the moves of a node so far.
struct Tried {
    best: i32,
    best_move: Move,
    searched: usize,
    alpha: i32,
    line: Vec<Move>,
    quiets: Vec<Move>,
}

impl Tried {
    spec fn scan(&self) -> Scan {
        Scan {
            best: self.best as int,
            best_move: self.best_move,
            searched: self.searched as int,
            alpha: self.alpha as int,
            line: self.line@,
            quiets: self.quiets@,
        }
    }

    /// The scores are within their bounds, and the line can be played.
    spec fn wf(&self, p: Position, node: Node) -> bool {
        &&& bounded_score(self.alpha as int)
        &&& bounded_score(self.best as int)
        &&& legal_line(p, self.line@)
        &&& legal_moves(p).len() == 0 ==> self.searched == 0
    }
}

/// What becomes of a node after one more move.
enum Next {
    On,
    Cut,
    Out(Found),
}

impl Next {
    spec fn step(&self, m: Mind, x: Scan) -> Step {
        match self {
            Next::On => Step::On(m, x),
            Next::Cut => Step::Cut(m, x),
            Next::Out(f) => Step::Out(f.seen(m)),
        }
    }
}

/// Takes the result of a legal move into account.
#[verifier::rlimit(40)]
fn weigh(
    info: &mut SearchInfo,
    pos: &Position,
    node: &Node,
    prev: (PieceType, Square),
    before: (PieceType, Square),
    mv: Move,
    nodes_before: u64,
    child: Found,
    t: &mut Tried,
) -> (n: Next)
    requires
        node.wf(),
        old(info).wf(),
        prev.1 < 64,
        before.1 < 64,
        nodes_before <= old(info).nodes,
        old(t).wf(*pos, *node),
        old(t).searched < usize::MAX,
        legal(*pos, mv),
        legal_moves(*pos).len() > 0,
        bounded_score(child.score as int),
        legal_line(*pos, seq![mv] + child.line@),
        old(t).alpha < node.beta,
    ensures
        kept(*old(info), *final(info)),
        final(info).stopped == old(info).stopped,
        final(t).wf(*pos, *node),
        final(t).searched == old(t).searched + 1,
        n is On || n is Cut,
        n is On ==> old(t).alpha <= final(t).alpha < node.beta,
        n.step(final(info).mind(), final(t).scan()) == weighed(
            nodes_before,
            *pos,
            *node,
            (prev.0, prev.1 as int),
            (before.0, before.1 as int),
            mv,
            old(t).scan(),
            child.seen(old(info).mind()),
        ),
{
    let ghost m = old(info).mind();
    let ghost c = child.seen(m);
    let ghost x = old(t).scan();
    let score: i32 = child.score;
    if node.ply == 0 {
        if t.searched == 0 {
            info.best_move_nodes = info.nodes - nodes_before;
        }
        note_root_move(info, score, t.best);
        assert(info.mind() == noted(m, nodes_before, score as int, x));
    }
    t.searched = t.searched + 1;
    let is_quiet_move: bool = is_quiet(mv);
    if is_quiet_move {
        t.quiets.push(mv);
    }
    if score > t.best {
        t.best = score;
        t.best_move = mv;
        if score > t.alpha {
            t.line = joined_line(mv, &child.line);
            t.alpha = score;
            assert(t.scan() == scanned(x, mv, c));
            if score >= node.beta {
                if is_quiet_move {
                    credit_quiet(info, pos, node, mv, &t.quiets, prev, before);
                } else if mv.is_capture() {
                    credit_capture(info, pos, node, mv);
                }
                return Next::Cut;
            }
        }
    }
    assert(t.scan() == scanned(x, mv, c));
    Next::On
}

/// Searches one move of a node, unless it is passed over.
#[verifier::rlimit(60)]
fn try_one(
    pos: &mut Position,
    info: &mut SearchInfo,
    tm: &TimeManager,
    acc: &Option<Accumulator>,
    node: &Node,
    prev: (PieceType, Square),
    before: (PieceType, Square),
    late: i32,
    futile: bool,
    mv: Move,
    hist: i32,
    t: &mut Tried,
) -> (n: Next)
    requires
        old(info).limit@ == tm.max_nodes,
        node.wf(),
        ready(*old(pos), *old(info), *acc, node.ply as int),
        prev.1 < 64,
        before.1 < 64,
        late == late_count(old(info).tune, node.improving, node.depth as int),
        late >= 0,
        futile == crate::model::futile(old(info).tune, *node),
        pseudo_legal(*old(pos), mv),
        old(t).wf(*old(pos), *node),
        old(t).searched < usize::MAX,
        node.alpha <= old(t).alpha < node.beta,
    ensures
        *final(pos) == *old(pos),
        kept(*old(info), *final(info)),
        final(t).wf(*old(pos), *node),
        final(t).searched <= old(t).searched + 1,
        n is On ==> node.alpha <= final(t).alpha < node.beta,
        n matches Next::Out(f) ==> bounded_score(f.score as int) && legal_line(
            *old(pos),
            f.line@,
        ) && (node.tt_score is Some || legal_moves(*old(pos)).len() > 0),
        old(info).undisturbed(*final(info)) ==> n.step(final(info).mind(), final(t).scan())
            == stepped(
            old(info).mind(),
            *old(pos),
            *node,
            (prev.0, prev.1 as int),
            (before.0, before.1 as int),
            mv,
            hist as int,
            old(t).scan(),
        ),
    decreases 128 - node.ply, exclusion_rank(node.excluded), 2int, 0int,
{
    let ghost q = *pos;
    let ghost m = old(info).mind();
    let ghost x = old(t).scan();
    let ghost a = (prev.0, prev.1 as int);
    let ghost b = (before.0, before.1 as int);
    let ghost st = stepped(m, q, *node, a, b, mv, hist as int, x);
    let ghost g = if tested(m, *node, mv) {
        singled_out(m, q, *node, mv, node.tt_score.unwrap() as int)
    } else {
        (m, Singular::Extend(0), x.line)
    };
    let ghost y = Scan { line: g.2, ..x };
    assert(st == if skipped(m, q, *node, mv, hist as int, x) {
        Step::On(m, x)
    } else {
        match g.1 {
            Singular::Halted => Step::Out(Seen { mind: g.0, score: 0, line: g.2 }),
            Singular::Cut(score) => Step::Out(Seen { mind: g.0, score: score as int, line: g.2 }),
            Singular::Extend(e) => match played(
                g.0,
                q,
                *node,
                mv,
                extension_of(q, mv, e),
                x.alpha,
                x.searched + 1,
                hist as int,
            ) {
                None => Step::On(g.0, y),
                Some(f) => if f.mind.stopped {
                    Step::Out(bare(f.mind, 0))
                } else {
                    weighed(g.0.nodes, q, *node, a, b, mv, y, f)
                },
            },
        }
    }) by {
        reveal(stepped);
        reveal(singled_out);
        reveal(played);
    }
    if node.excluded.0 != 0 && mv == node.excluded {
        return Next::On;
    }
    if prunes_move(&info.tune, pos, node, mv, hist, t.searched, t.best, late, futile) {
        return Next::On;
    }
    let mut extension: i32 = 0;
    if mv == node.tt_move && node.excluded.0 == 0 && singular_candidate(
        &info.tune,
        node.depth,
        node.tt_score,
        node.tt_depth,
        node.tt_flag,
    ) {
        if let Some(s) = node.tt_score {
            let r: (Singular, Vec<Move>) = try_singular(pos, info, tm, acc, node, mv, s);
            match r.0 {
                Singular::Halted => {
                    return Next::Out(Found { score: 0, line: r.1 });
                },
                Singular::Cut(score) => {
                    return Next::Out(Found { score, line: r.1 });
                },
                Singular::Extend(e) => {
                    extension = e;
                    t.line = r.1;
                },
            }
        }
    }
    let ghost e = extension;
    if extension == 0 {
        let from_piece: u8 = pos.mailbox[mv.from() as usize];
        let is_pawn: bool = from_piece != EMPTY && piece_type(from_piece) == PieceType::Pawn;
        if pawn_runs(pos.side, is_pawn, mv.is_promotion(), rank_of(mv.to())) {
            extension = 1;
        }
    }
    assert(extension == extension_of(q, mv, e));
    let nodes_before: u64 = info.nodes;
    let ghost before_child = *info;
    let child: Found = match play_child(
        pos,
        info,
        tm,
        acc,
        node,
        mv,
        extension,
        t.alpha,
        t.searched + 1,
        hist,
    ) {
        Some(f) => f,
        None => {
            return Next::On;
        },
    };
    proof {
        has_legal_move(q, mv);
    }
    if halted(info, tm) {
        return Next::Out(Found { score: 0, line: Vec::new() });
    }
    weigh(info, pos, node, prev, before, mv, nodes_before, child, t)
}

/// Searches the moves of a node. Without a legal move the score is that of a
/// mate or a stalemate, or alpha while a move is excluded.
#[verifier::rlimit(60)]
pub(crate) fn search_moves(
    pos: &mut Position,
    info: &mut SearchInfo,
    tm: &TimeManager,
    acc: &Option<Accumulator>,
    node: &Node,
) -> (f: Found)
    requires
        old(info).limit@ == tm.max_nodes,
        node.wf(),
        ready(*old(pos), *old(info), *acc, node.ply as int),
        node.in_check == old(pos).in_check(),
    ensures
        *final(pos) == *old(pos),
        kept(*old(info), *final(info)),
        bounded_score(f.score as int),
        legal_line(*old(pos), f.line@),
        node.excluded.0 == 0 && node.in_check && node.tt_score is None && legal_moves(
            *old(pos),
        ).len() == 0 ==> f.score == node.ply - 29000,
        old(info).undisturbed(*final(info)) ==> f.seen(final(info).mind()) == moves_searched(
            old(info).mind(),
            *old(pos),
            *node,
        ),
    decreases 128 - node.ply, exclusion_rank(node.excluded), 4int, 0int,
{
    let ghost q = *pos;
    let ghost m = moves_searched(old(info).mind(), q, *node);
    let mut list: MoveList = list_all(pos);
    let prev: (PieceType, Square) = earlier_move(info, node.ply, 1);
    let before: (PieceType, Square) = earlier_move(info, node.ply, 2);
    let mut scores: Vec<i32> = node_scores(info, pos, &list, node, prev);
    let ghost a = (prev.0, prev.1 as int);
    let ghost b = (before.0, before.1 as int);
    if node.ply == 0 {
        info.root_second_best = i32::MIN;
        info.root_moves_count = 0;
    }
    let late: i32 = late_move_count(&info.tune, node.improving, node.depth);
    let futile: bool = !node.is_pv && !node.in_check && is_futile(
        &info.tune,
        node.depth,
        node.static_eval,
        node.alpha,
    );
    let mut t: Tried = Tried {
        best: -INFINITY,
        best_move: Move::null(),
        searched: 0,
        alpha: node.alpha,
        line: Vec::new(),
        quiets: Vec::new(),
    };
    assert(t.scan().line =~= Seq::empty() && t.scan().quiets =~= Seq::empty());
    assert(m == tried(info.mind(), q, *node, a, b, list@, scores@, 0, t.scan())) by {
        reveal(moves_searched);
        reveal(tried);
    }
    let mut i: usize = 0;
    let mut cut: bool = false;
    while i < list.len && !cut
        invariant
            node.wf(),
            *pos == q,
            q == *old(pos),
            node.in_check == q.in_check(),
            ready(q, *info, *acc, node.ply as int),
            kept(*old(info), *info),
            old(info).limit@ == tm.max_nodes,
            list.wf(),
            i <= list@.len(),
            t.searched <= i,
            t.wf(q, *node),
            !cut ==> node.alpha <= t.alpha < node.beta,
            scores@.len() == list@.len(),
            all_pseudo_legal(q, list@),
            prev.1 < 64,
            before.1 < 64,
            m == moves_searched(old(info).mind(), q, *node),
            a == (prev.0, prev.1 as int),
            b == (before.0, before.1 as int),
            late >= 0,
            late == late_count(old(info).tune, node.improving, node.depth as int),
            futile == crate::model::futile(old(info).tune, *node),
            old(info).undisturbed(*info) ==> m == if cut {
                finished(info.mind(), q, *node, t.scan())
            } else {
                tried(info.mind(), q, *node, a, b, list@, scores@, i as int, t.scan())
            },
        decreases list@.len() - i,
    {
        let ghost s0 = *info;
        let ghost x0 = t.scan();
        let ghost l0 = list@;
        let ghost o0 = scores@;
        let mv: Move = pick_pseudo(&mut list, &mut scores, i, Ghost(q));
        let hist: i32 = scores[i];
        proof {
            let k = first_best(o0, i as int);
            assert(tried(s0.mind(), q, *node, a, b, l0, o0, i as int, x0) == match stepped(
                s0.mind(),
                q,
                *node,
                a,
                b,
                mv,
                hist as int,
                x0,
            ) {
                Step::On(u, y) => tried(u, q, *node, a, b, list@, scores@, i + 1, y),
                Step::Cut(u, y) => finished(u, q, *node, y),
                Step::Out(f) => f,
            }) by {
                reveal(tried);
                reveal(stepped);
            }
        }
        i = i + 1;
        match try_one(
            pos,
            info,
            tm,
            acc,
            node,
            prev,
            before,
            late,
            futile,
            mv,
            hist,
            &mut t,
        ) {
            Next::On => {},
            Next::Cut => {
                cut = true;
            },
            Next::Out(f) => {
                return f;
            },
        }
    }
    assert(old(info).undisturbed(*info) ==> m == finished(info.mind(), q, *node, t.scan())) by {
        reveal(tried);
    }
    if t.searched == 0 {
        let score: i32 = if node.excluded.0 != 0 {
            t.alpha
        } else if node.in_check {
            -MATE_SCORE + node.ply as i32
        } else {
            0
        };
        return Found { score, line: t.line };
    }
    if node.excluded.0 == 0 {
        remember(pos, info, node, t.best, t.best_move, t.alpha != node.alpha);
    }
    Found { score: t.best, line: t.line }
}

/// Stores the result of a node in the table and learns how far the evaluation
/// was off.
pub(crate) fn remember(
    pos: &Position,
    info: &mut SearchInfo,
    node: &Node,
    best: i32,
    best_move: Move,
    alpha_rose: bool,
)
    requires
        node.wf(),
        old(info).wf(),
        bounded_score(best as int),
    ensures
        kept(*old(info), *final(info)),
        final(info).stopped == old(info).stopped,
        final(info).mind() == remembered(
            old(info).mind(),
            *pos,
            *node,
            best as int,
            best_move,
            alpha_rose,
        ),
        *final(info) == (SearchInfo {
            tt: final(info).tt,
            correction_history: final(info).correction_history,
            ..*old(info)
        }),
        ({
            let e = new_entry(
                pos.hash,
                node.depth as i8,
                if best >= node.beta {
                    2u8
                } else if alpha_rose {
                    1u8
                } else {
                    3u8
                },
                node.is_pv || node.tt_pv,
                kept_score(best as int, node.ply as int) as i16,
                node.raw_eval as i16,
                best_move,
                old(info).tt.gen,
            );
            let k = old(info).tt.slot(pos.hash);
            final(info).tt.buckets@ == old(info).tt.buckets@.update(
                k,
                stored(old(info).tt.buckets@[k], e),
            )
        }),
        node.in_check || decisive(best as int) || node.raw_eval == -30000
            ==> final(info).correction_history == old(info).correction_history,
{
    info.tt.store(
        pos.hash,
        node.depth as i8,
        bound_kind(best, node.beta, alpha_rose),
        node.is_pv || node.tt_pv,
        score_to_tt(best, node.ply as i32),
        node.raw_eval as i16,
        best_move,
    );
    if !node.in_check && !is_mate_score(best) && node.raw_eval != -INFINITY {
        info.correction_history.update(
            pos.side,
            pos.pawn_hash,
            best - node.raw_eval,
            node.depth,
        );
    }
}

} // verus!
