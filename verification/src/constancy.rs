//! What a search leaves as it is.

use crate::board::{after, Position};
use crate::model::{
    aspired, credited, cut_by_captures, deepened, ends, exchange_orders, finished, given_up,
    iterated, moves_searched, opened, passed, played, quiesced, quiesced_moves, razored, reduced,
    scanned, scouted, searched, singled_out, skipped, stepped, tested, tried, tries_null, way,
    widened, Course, Mind, Scan, Stand, Step, Way,
};
use crate::nodes::{exclusion_rank, Node};
use crate::num::at_least;
use crate::ordering::{first_best, swapped};
use crate::play::passed_turn;
use crate::types::{Move, PieceType};
use vstd::prelude::*;

verus! {

/// The settings and the game so far are the same, and no nodes have been lost.
pub open spec fn same_setting(a: Mind, b: Mind) -> bool {
    &&& b.tune == a.tune
    &&& b.nnue == a.nnue
    &&& b.limit == a.limit
    &&& b.reductions == a.reductions
    &&& b.mask == a.mask
    &&& b.gen == a.gen
    &&& b.hashes == a.hashes
    &&& b.nodes >= a.nodes
}

/// Quiescence leaves the settings and the game so far as they are, and counts its nodes.
pub proof fn quiescence_keeps_the_setting(s: Mind, p: Position, alpha: int, beta: int, ply: int)
    ensures
        same_setting(s, quiesced(s, p, alpha, beta, ply).mind),
        s.nodes < u64::MAX ==> quiesced(s, p, alpha, beta, ply).mind.nodes > s.nodes,
    decreases 128 - ply, 1int, 0int,
{
    reveal(quiesced);
    reveal(quiesced_moves);
    let c = s.counted().reached(ply);
    let e = c.entry(p);
    let evading = crate::quiet::evades(p, ply);
    let v = if evading {
        -30000
    } else {
        crate::model::position_value(c.nnue, p)
    };
    if !s.counted().runs_out() && ply < 127 && v < beta {
        let tt_move = if e is Some {
            e.unwrap().best_move
        } else {
            Move(0)
        };
        let list = if evading {
            crate::movegen::all_moves(p)
        } else {
            crate::movegen::capture_moves(p)
        };
        let x = Stand {
            stand_pat: v,
            alpha: at_least(alpha, v),
            best: v,
            best_move: Move(0),
            legal: 0,
        };
        captures_keep_the_setting(
            c,
            p,
            alpha,
            beta,
            ply,
            list,
            crate::model::quiet_orders(p, list, tt_move),
            0,
            x,
        );
    }
}

proof fn captures_keep_the_setting(
    s: Mind,
    p: Position,
    alpha: int,
    beta: int,
    ply: int,
    list: Seq<Move>,
    scores: Seq<i32>,
    i: int,
    x: Stand,
)
    ensures
        same_setting(s, quiesced_moves(s, p, alpha, beta, ply, list, scores, i, x).mind),
    decreases 128 - ply, 0int, list.len() - i,
{
    reveal(quiesced);
    reveal(quiesced_moves);
    if i < list.len() && ply < 127 {
        let k = first_best(scores, i);
        let mv = list[k];
        let l = swapped(list, i, k);
        let o = swapped(scores, i, k);
        captures_keep_the_setting(s, p, alpha, beta, ply, l, o, i + 1, x);
        let r = quiesced(s, after(p, mv), -beta, -x.alpha, ply + 1);
        quiescence_keeps_the_setting(s, after(p, mv), -beta, -x.alpha, ply + 1);
        let score = -r.score;
        let y = Stand {
            stand_pat: x.stand_pat,
            alpha: at_least(x.alpha, score),
            best: at_least(x.best, score),
            best_move: if score > x.alpha {
                mv
            } else {
                x.best_move
            },
            legal: x.legal + 1,
        };
        captures_keep_the_setting(r.mind, p, alpha, beta, ply, l, o, i + 1, y);
    }
}

/// A search leaves the settings and the game so far as they are: every move that it makes
/// it takes back.
pub proof fn search_keeps_the_setting(
    s: Mind,
    p: Position,
    alpha: int,
    beta: int,
    depth: int,
    ply: int,
    is_null: bool,
    excluded: Move,
    cut: bool,
)
    ensures
        same_setting(s, searched(s, p, alpha, beta, depth, ply, is_null, excluded, cut).mind),
    decreases 128 - ply, exclusion_rank(excluded), 7int, 0int,
{
    assert(same_setting(
        s,
        match way(s, p, alpha, beta, depth, ply) {
            Way::Decided(x) => x.mind,
            Way::Quiet => quiesced(s, p, alpha, beta, ply).mind,
            Way::Open { mind, alpha: a, beta: b, depth: d } => opened(
                mind,
                p,
                a,
                b,
                d,
                ply,
                is_null,
                excluded,
                cut,
                beta - alpha > 1,
            ).mind,
        },
    )) by {
        match way(s, p, alpha, beta, depth, ply) {
            Way::Decided(x) => {},
            Way::Quiet => {
                quiescence_keeps_the_setting(s, p, alpha, beta, ply);
            },
            Way::Open { mind, alpha: a, beta: b, depth: d } => {
                node_keeps_the_setting(
                    mind,
                    p,
                    a,
                    b,
                    d,
                    ply,
                    is_null,
                    excluded,
                    cut,
                    beta - alpha > 1,
                );
            },
        }
    }
    reveal(searched);
    reveal(opened);
}

proof fn node_keeps_the_setting(
    s: Mind,
    p: Position,
    alpha: int,
    beta: int,
    depth: int,
    ply: int,
    is_null: bool,
    excluded: Move,
    cut: bool,
    is_pv: bool,
)
    ensures
        same_setting(
            s,
            opened(s, p, alpha, beta, depth, ply, is_null, excluded, cut, is_pv).mind,
        ),
    decreases 128 - ply, exclusion_rank(excluded), 6int, 0int,
{
    if 0 <= ply < 127 {
        let node = crate::model::node_at(
            s,
            p,
            alpha,
            beta,
            depth,
            ply,
            is_null,
            excluded,
            cut,
            is_pv,
        );
        let t = Mind { evals: s.evals.update(ply, node.static_eval), ..s };
        pruning_keeps_the_setting(t, p, node);
        let r = if !is_pv && !node.in_check && excluded.0 == 0 {
            given_up(t, p, node)
        } else {
            (t, None)
        };
        moves_keep_the_setting(r.0, p, reduced(node));
    }
    reveal(opened);
    reveal(given_up);
    reveal(moves_searched);
}

proof fn pruning_keeps_the_setting(s: Mind, p: Position, node: Node)
    ensures
        same_setting(s, given_up(s, p, node).0),
    decreases 128 - node.ply, exclusion_rank(node.excluded), 5int, 0int,
{
    let n = passed(s, p, node);
    passing_keeps_the_setting(s, p, node);
    let t = if tries_null(p, node) {
        n.0
    } else {
        s
    };
    let q = quiesced(t, p, node.alpha as int, node.beta as int, node.ply as int);
    quiescence_keeps_the_setting(t, p, node.alpha as int, node.beta as int, node.ply as int);
    let u = if razored(t.tune, node) {
        q.mind
    } else {
        t
    };
    let list = crate::movegen::capture_moves(p);
    let o = exchange_orders(p, list);
    cuts_keep_the_setting(u, p, node, list, o, 0);
    reveal(given_up);
    reveal(passed);
    reveal(quiesced);
    reveal(cut_by_captures);
}

proof fn passing_keeps_the_setting(s: Mind, p: Position, node: Node)
    ensures
        same_setting(s, passed(s, p, node).0),
    decreases 128 - node.ply, exclusion_rank(node.excluded), 1int, 0int,
{
    if node.ply < 127 {
        let q = passed_turn(p);
        let k = s.stacked(node.ply as int, Move(0), PieceType::NoType).pushed(q.hash);
        let r = crate::decide::null_reduction(
            s.tune,
            node.depth as int,
            node.static_eval as int,
            node.beta as int,
            node.improving,
        );
        search_keeps_the_setting(
            k,
            q,
            -node.beta,
            -node.beta + 1,
            node.depth - r - 1,
            node.ply + 1,
            true,
            Move(0),
            !node.cut_node,
        );
        assert(k.hashes.drop_last() =~= s.hashes);
    }
    reveal(passed);
    reveal(searched);
}

proof fn cuts_keep_the_setting(
    s: Mind,
    p: Position,
    node: Node,
    list: Seq<Move>,
    scores: Seq<i32>,
    i: int,
)
    ensures
        same_setting(s, cut_by_captures(s, p, node, list, scores, i).0),
    decreases 128 - node.ply, exclusion_rank(node.excluded), 1int, list.len() - i,
{
    if i < list.len() && node.ply < 127 {
        let k = first_best(scores, i);
        let mv = list[k];
        let l = swapped(list, i, k);
        let o = swapped(scores, i, k);
        let goal = node.beta + crate::decide::param(s.tune, crate::tune::PROBCUT_MARGIN);
        cuts_keep_the_setting(s, p, node, l, o, i + 1);
        let c = after(p, mv);
        let f = searched(
            s.pushed(c.hash),
            c,
            -goal,
            -goal + 1,
            node.depth - 4,
            node.ply + 1,
            false,
            Move(0),
            !node.cut_node,
        );
        search_keeps_the_setting(
            s.pushed(c.hash),
            c,
            -goal,
            -goal + 1,
            node.depth - 4,
            node.ply + 1,
            false,
            Move(0),
            !node.cut_node,
        );
        assert(s.pushed(c.hash).hashes.drop_last() =~= s.hashes);
        cuts_keep_the_setting(f.mind.popped(), p, node, l, o, i + 1);
    }
    reveal(cut_by_captures);
    reveal(searched);
}

proof fn moves_keep_the_setting(s: Mind, p: Position, node: Node)
    ensures
        same_setting(s, moves_searched(s, p, node).mind),
    decreases 128 - node.ply, exclusion_rank(node.excluded), 4int, 0int,
{
    let prev = crate::model::earlier(s, node.ply as int, 1);
    let before = crate::model::earlier(s, node.ply as int, 2);
    let list = crate::movegen::all_moves(p);
    let t = if node.ply == 0 {
        Mind { second_best: i32::MIN, root_moves: 0, ..s }
    } else {
        s
    };
    let x = Scan {
        best: -30000,
        best_move: Move(0),
        searched: 0,
        alpha: node.alpha as int,
        line: Seq::empty(),
        quiets: Seq::empty(),
    };
    let o = crate::model::node_orders(s, p, node, prev, list);
    tries_keep_the_setting(t, p, node, prev, before, list, o, 0, x);
    reveal(moves_searched);
    reveal(tried);
}

proof fn tries_keep_the_setting(
    s: Mind,
    p: Position,
    node: Node,
    prev: (PieceType, int),
    before: (PieceType, int),
    list: Seq<Move>,
    scores: Seq<i32>,
    i: int,
    x: Scan,
)
    ensures
        same_setting(s, tried(s, p, node, prev, before, list, scores, i, x).mind),
    decreases 128 - node.ply, exclusion_rank(node.excluded), 3int, list.len() - i,
{
    if i < list.len() {
        let k = first_best(scores, i);
        let l = swapped(list, i, k);
        let o = swapped(scores, i, k);
        let hist = scores[k] as int;
        step_keeps_the_setting(s, p, node, prev, before, list[k], hist, x);
        match stepped(s, p, node, prev, before, list[k], hist, x) {
            Step::On(u, y) => {
                tries_keep_the_setting(u, p, node, prev, before, l, o, i + 1, y);
            },
            Step::Cut(u, y) => {
                assert(same_setting(u, finished(u, p, node, y).mind));
            },
            Step::Out(f) => {},
        }
    } else {
        assert(same_setting(s, finished(s, p, node, x).mind));
    }
    reveal(tried);
    reveal(stepped);
}

proof fn step_keeps_the_setting(
    s: Mind,
    p: Position,
    node: Node,
    prev: (PieceType, int),
    before: (PieceType, int),
    mv: Move,
    hist: int,
    x: Scan,
)
    ensures
        same_setting(
            s,
            match stepped(s, p, node, prev, before, mv, hist, x) {
                Step::On(u, y) => u,
                Step::Cut(u, y) => u,
                Step::Out(f) => f.mind,
            },
        ),
    decreases 128 - node.ply, exclusion_rank(node.excluded), 2int, 0int,
{
    if !skipped(s, p, node, mv, hist, x) {
        let t = if tested(s, node, mv) {
            singled_out(s, p, node, mv, node.tt_score.unwrap() as int)
        } else {
            (s, crate::moves::Singular::Extend(0), x.line)
        };
        if tested(s, node, mv) {
            test_keeps_the_setting(s, p, node, mv, node.tt_score.unwrap() as int);
        }
        if let crate::moves::Singular::Extend(e) = t.1 {
            let ext = crate::model::extension_of(p, mv, e);
            move_keeps_the_setting(t.0, p, node, mv, ext, x.alpha, x.searched + 1, hist);
            let y = Scan { line: t.2, ..x };
            if let Some(f) = played(t.0, p, node, mv, ext, x.alpha, x.searched + 1, hist) {
                let z = scanned(y, mv, f);
                assert(same_setting(f.mind, crate::model::noted(f.mind, t.0.nodes, f.score, y)));
                assert(same_setting(
                    f.mind,
                    credited(f.mind, p, node, mv, z.quiets, prev, before),
                ));
            }
        }
    }
    reveal(stepped);
    reveal(singled_out);
    reveal(played);
}

proof fn test_keeps_the_setting(s: Mind, p: Position, node: Node, mv: Move, tt_score: int)
    ensures
        same_setting(s, singled_out(s, p, node, mv, tt_score).0),
    decreases 128 - node.ply, exclusion_rank(node.excluded), 1int, 0int,
{
    if node.excluded.0 == 0 && mv.0 != 0 {
        let goal = tt_score - node.depth * crate::decide::param(s.tune, crate::tune::SE_MARGIN_MUL);
        search_keeps_the_setting(
            s,
            p,
            goal - 1,
            goal,
            (node.depth - 1) / 2,
            node.ply as int,
            false,
            mv,
            node.cut_node,
        );
    }
    reveal(singled_out);
    reveal(searched);
}

proof fn move_keeps_the_setting(
    s: Mind,
    p: Position,
    node: Node,
    mv: Move,
    ext: int,
    alpha: int,
    number: int,
    hist: int,
)
    ensures
        played(s, p, node, mv, ext, alpha, number, hist) matches Some(f) ==> same_setting(s, f.mind),
    decreases 128 - node.ply, exclusion_rank(node.excluded), 0int, 1int,
{
    if node.ply < 127 {
        let c = after(p, mv);
        let depth = node.depth - 1 + ext;
        let k = crate::model::child_mind(s, p, node, mv);
        scout_keeps_the_setting(k, c, node, mv, depth, alpha, number, hist);
        let b = scouted(k, c, node, mv, depth, alpha, number, hist);
        search_keeps_the_setting(
            b.mind,
            c,
            -node.beta,
            -alpha,
            depth,
            node.ply + 1,
            false,
            Move(0),
            false,
        );
        assert(k.hashes.drop_last() =~= s.hashes);
    }
    reveal(played);
    reveal(scouted);
    reveal(searched);
}

proof fn scout_keeps_the_setting(
    s: Mind,
    c: Position,
    node: Node,
    mv: Move,
    depth: int,
    alpha: int,
    number: int,
    hist: int,
)
    ensures
        same_setting(s, scouted(s, c, node, mv, depth, alpha, number, hist).mind),
    decreases 128 - node.ply, exclusion_rank(node.excluded), 0int, 0int,
{
    if node.ply < 127 {
        let d = crate::model::late_depth(s, c, node, depth, alpha, number, hist);
        let a = searched(
            s,
            c,
            -alpha - 1,
            -alpha,
            d,
            node.ply + 1,
            false,
            Move(0),
            !node.cut_node,
        );
        search_keeps_the_setting(
            s,
            c,
            -alpha - 1,
            -alpha,
            d,
            node.ply + 1,
            false,
            Move(0),
            !node.cut_node,
        );
        search_keeps_the_setting(
            a.mind,
            c,
            -alpha - 1,
            -alpha,
            depth,
            node.ply + 1,
            false,
            Move(0),
            !node.cut_node,
        );
        search_keeps_the_setting(
            s,
            c,
            -alpha - 1,
            -alpha,
            depth,
            node.ply + 1,
            false,
            Move(0),
            !node.cut_node,
        );
    }
    reveal(scouted);
    reveal(searched);
}

/// A capture that settles a node exceeds beta by the margin.
proof fn cuts_exceed_beta(
    s: Mind,
    p: Position,
    node: Node,
    list: Seq<Move>,
    scores: Seq<i32>,
    i: int,
)
    ensures
        ({
            let r = cut_by_captures(s, p, node, list, scores, i);
            r.1 is Some && !r.0.stopped ==> r.1->0 >= node.beta + crate::decide::param(
                s.tune,
                crate::tune::PROBCUT_MARGIN,
            )
        }),
    decreases list.len() - i,
{
    if i < list.len() && node.ply < 127 {
        let k = first_best(scores, i);
        let mv = list[k];
        let l = swapped(list, i, k);
        let o = swapped(scores, i, k);
        let goal = node.beta + crate::decide::param(s.tune, crate::tune::PROBCUT_MARGIN);
        cuts_exceed_beta(s, p, node, l, o, i + 1);
        let c = after(p, mv);
        let f = searched(
            s.pushed(c.hash),
            c,
            -goal,
            -goal + 1,
            node.depth - 4,
            node.ply + 1,
            false,
            Move(0),
            !node.cut_node,
        );
        search_keeps_the_setting(
            s.pushed(c.hash),
            c,
            -goal,
            -goal + 1,
            node.depth - 4,
            node.ply + 1,
            false,
            Move(0),
            !node.cut_node,
        );
        cuts_exceed_beta(f.mind.popped(), p, node, l, o, i + 1);
    }
    reveal(cut_by_captures);
    reveal(searched);
}

/// A node that is given up before its moves are tried has a score outside the window: at
/// beta or above, or at alpha or below.
pub proof fn no_score_within_is_given_up(s: Mind, p: Position, node: Node)
    requires
        s.tune.in_range(),
        1 <= node.depth,
        node.ply < 127,
        !given_up(s, p, node).0.stopped,
    ensures
        given_up(s, p, node).1 matches Some(v) ==> v >= node.beta || v <= node.alpha,
{
    let n = passed(s, p, node);
    passing_keeps_the_setting(s, p, node);
    let t = if tries_null(p, node) {
        n.0
    } else {
        s
    };
    let q = quiesced(t, p, node.alpha as int, node.beta as int, node.ply as int);
    quiescence_keeps_the_setting(t, p, node.alpha as int, node.beta as int, node.ply as int);
    let u = if razored(t.tune, node) {
        q.mind
    } else {
        t
    };
    let list = crate::movegen::capture_moves(p);
    let o = exchange_orders(p, list);
    cuts_exceed_beta(u, p, node, list, o, 0);
    crate::weighing::margins_are_for_bad_positions(s.tune, node);
    assert(s.tune.values@[crate::tune::PROBCUT_MARGIN as int] >= 0);
    reveal(given_up);
    reveal(passed);
    reveal(quiesced);
    reveal(cut_by_captures);
}

proof fn windows_keep_the_setting(
    s: Mind,
    p: Position,
    depth: int,
    alpha: int,
    beta: int,
    delta: int,
    wide: bool,
)
    ensures
        same_setting(s, widened(s, p, depth, alpha, beta, delta, wide).mind),
    decreases
            (if wide {
                0
            } else {
                1000 - delta
            }),
{
    reveal(widened);
    let f = searched(s, p, alpha, beta, depth, 0, false, Move(0), false);
    search_keeps_the_setting(s, p, alpha, beta, depth, 0, false, Move(0), false);
    if !(f.mind.stopped || wide || delta < 10 || delta > 500 || alpha < f.score < beta) {
        let a = if f.score <= alpha {
            at_least(f.score - delta, -30000)
        } else {
            alpha
        };
        let b = crate::num::at_most(f.score + delta, 30000);
        let d = delta + delta / 2;
        if d > 500 || a >= b {
            windows_keep_the_setting(f.mind, p, depth, -30000, 30000, d, true);
        } else {
            windows_keep_the_setting(f.mind, p, depth, a, b, d, false);
        }
    }
}

proof fn iteration_keeps_the_setting(s: Mind, p: Position, depth: int, prev: int)
    ensures
        same_setting(s, aspired(s, p, depth, prev).mind),
{
    let delta = crate::decide::param(s.tune, crate::tune::ASP_DELTA);
    search_keeps_the_setting(s, p, -30000, 30000, depth, 0, false, Move(0), false);
    windows_keep_the_setting(s, p, depth, -30000, 30000, delta, true);
    windows_keep_the_setting(
        s,
        p,
        depth,
        at_least(prev - delta, -30000),
        crate::num::at_most(prev + delta, 30000),
        delta,
        false,
    );
}

/// However deep a search goes, it leaves the settings and the game so far as they are.
pub proof fn iterations_keep_the_setting(c: Course, p: Position, max_depth: int, soft: int)
    ensures
        same_setting(c.mind, deepened(c, p, max_depth, soft).mind),
    decreases
            (if c.done {
                0
            } else {
                max_depth - c.depth + 1
            }),
{
    if !ends(c, max_depth, soft) {
        iteration_keeps_the_setting(c.mind, p, c.depth, c.score);
        let n = iterated(c, p);
        if n.done {
            assert(deepened(n, p, max_depth, soft) == (Course { done: true, ..n }));
        } else {
            iterations_keep_the_setting(n, p, max_depth, soft);
        }
    }
}

} // verus!
