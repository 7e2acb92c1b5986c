//! What the search of a node comes to: which moves it tries, and what it makes of them.

use crate::board::{after, Position};
use crate::decide::{draw_score, far_above, param, seen_score};
use crate::model::{
    aspired, begun, child_mind, cut_by_captures, deepened, ends, entry_cuts, exchange_orders,
    extension_of, finished, given_up, iterated, moves_searched, node_at, node_orders, noted, opened,
    passed, played, quiesced, razored, reduced, runs, scanned, scouted, searched, singled_out,
    skipped, stepped, tested, tried, tries_null, weighed, widened, Course, Mind, Scan, Seen,
};
use crate::movegen::all_moves;
use crate::moves::{quiet, Singular};
use crate::nodes::{extended_depth, Node};
use crate::num::{at_least, at_most};
use crate::ordering::{first_best, swapped};
use crate::play::passed_turn;
use crate::rules::{
    all_moves_are_pseudo_legal, legal, legal_moves, legal_moves_are_legal, playable, sound_facts,
};
use crate::sight::best_exists;
use crate::tt::TTEntry;
use crate::tune::{largest_value, least_value, ASP_DELTA};
use crate::types::{Move, PieceType};
use vstd::prelude::*;

verus! {

/// The moves that are tried, one after the other: what is known before each of them and
/// after the last, alpha then, the order value of each, its score and its line.
pub struct Tries {
    pub moves: Seq<Move>,
    pub minds: Seq<Mind>,
    pub alphas: Seq<int>,
    pub hists: Seq<int>,
    pub scores: Seq<int>,
    pub lines: Seq<Seq<Move>>,
}

/// What is known is the same but for the notes on root moves.
pub open spec fn same_but_notes(a: Mind, b: Mind) -> bool {
    a == (Mind {
        first_nodes: a.first_nodes,
        second_best: a.second_best,
        root_moves: a.root_moves,
        ..b
    })
}

spec fn try_at(t: Tries, p: Position, node: Node, before: int, j: int) -> bool {
    let c = played(
        t.minds[j],
        p,
        node,
        t.moves[j],
        if runs(p, t.moves[j]) {
            1
        } else {
            0
        },
        t.alphas[j],
        before + j + 1,
        t.hists[j],
    );
    &&& c matches Some(f) && legal(p, t.moves[j]) && !f.mind.stopped && t.scores[j] == f.score
        && t.lines[j] == f.line && same_but_notes(t.minds[j + 1], f.mind) && (node.ply > 0
        ==> t.minds[j + 1] == f.mind)
    &&& t.alphas[j + 1] == if t.scores[j] > t.alphas[j] {
        t.scores[j]
    } else {
        t.alphas[j]
    }
}

#[verifier::opaque]
spec fn go_on(t: Tries, s: Mind, p: Position, node: Node, alpha: int, before: int) -> bool {
    let n = t.moves.len();
    &&& t.minds.len() == n + 1 && t.alphas.len() == n + 1
    &&& t.hists.len() == n && t.scores.len() == n && t.lines.len() == n
    &&& t.minds[0] == s
    &&& t.alphas[0] == alpha
    &&& forall|j: int| 0 <= j < n ==> #[trigger] try_at(t, p, node, before, j)
}

proof fn none_tried(s: Mind, p: Position, node: Node, alpha: int, before: int) -> (t: Tries)
    ensures
        go_on(t, s, p, node, alpha, before),
        t.moves.len() == 0,
        t.minds.len() == 1,
        t.scores.len() == 0,
        t.hists.len() == 0,
        t.lines.len() == 0,
{
    reveal(go_on);
    Tries {
        moves: Seq::empty(),
        minds: seq![s],
        alphas: seq![alpha],
        hists: Seq::empty(),
        scores: Seq::empty(),
        lines: Seq::empty(),
    }
}

proof fn tried_first(
    t: Tries,
    s: Mind,
    u: Mind,
    p: Position,
    node: Node,
    alpha: int,
    before: int,
    mv: Move,
    hist: int,
    f: Seen,
) -> (r: Tries)
    requires
        legal(p, mv),
        played(
            s,
            p,
            node,
            mv,
            if runs(p, mv) {
                1
            } else {
                0
            },
            alpha,
            before + 1,
            hist,
        ) == Some(f),
        !f.mind.stopped,
        same_but_notes(u, f.mind),
        node.ply > 0 ==> u == f.mind,
        go_on(
            t,
            u,
            p,
            node,
            if f.score > alpha {
                f.score
            } else {
                alpha
            },
            before + 1,
        ),
    ensures
        go_on(r, s, p, node, alpha, before),
        r.moves == seq![mv] + t.moves,
        r.scores == seq![f.score] + t.scores,
        r.hists == seq![hist] + t.hists,
        r.lines == seq![f.line] + t.lines,
        r.alphas == seq![alpha] + t.alphas,
{
    reveal(go_on);
    let r = Tries {
        moves: seq![mv] + t.moves,
        minds: seq![s] + t.minds,
        alphas: seq![alpha] + t.alphas,
        hists: seq![hist] + t.hists,
        scores: seq![f.score] + t.scores,
        lines: seq![f.line] + t.lines,
    };
    assert forall|j: int| 0 <= j < r.moves.len() implies #[trigger] try_at(r, p, node, before, j) by {
        if j > 0 {
            assert(try_at(t, p, node, before + 1, j - 1));
            assert(r.moves[j] == t.moves[j - 1]);
            assert(r.minds[j] == t.minds[j - 1]);
            assert(r.minds[j + 1] == t.minds[j]);
            assert(r.alphas[j] == t.alphas[j - 1]);
            assert(r.alphas[j + 1] == t.alphas[j]);
            assert(r.hists[j] == t.hists[j - 1]);
            assert(r.scores[j] == t.scores[j - 1]);
            assert(r.lines[j] == t.lines[j - 1]);
            assert(before + 1 + (j - 1) + 1 == before + j + 1);
        } else {
            assert(r.minds[1] == t.minds[0]);
            assert(r.alphas[1] == t.alphas[0]);
        }
    }
    r
}

/// The move has been tried, or beta is reached, or the node is one where moves are left
/// out.
spec fn tried_or_not(t: Tries, p: Position, node: Node, before: int, mv: Move, r: int) -> bool {
    ||| !legal(p, mv)
    ||| t.moves.contains(mv)
    ||| r >= node.beta && t.moves.len() > 0
    ||| node.ply > 0 && !node.is_pv && !node.in_check && before + t.moves.len() > 0
}

#[verifier::opaque]
spec fn all_tried(t: Tries, p: Position, node: Node, before: int, list: Seq<Move>, i: int, r: int) -> bool {
    forall|k: int|
        i <= k < list.len() ==> #[trigger] tried_or_not(t, p, node, before, list[k], r)
}

proof fn all_tried_grows(
    t: Tries,
    rest: Tries,
    p: Position,
    node: Node,
    before: int,
    more: int,
    list: Seq<Move>,
    i: int,
    k: int,
    r: int,
)
    requires
        0 <= i <= k < list.len(),
        all_tried(rest, p, node, before + more, swapped(list, i, k), i + 1, r),
        more == 0 && t.moves == rest.moves || more == 1 && t.moves == seq![list[k]] + rest.moves,
        tried_or_not(t, p, node, before, list[k], r),
    ensures
        all_tried(t, p, node, before, list, i, r),
{
    reveal(all_tried);
    let l = swapped(list, i, k);
    assert forall|m: int| i <= m < list.len() implies #[trigger] tried_or_not(
        t,
        p,
        node,
        before,
        list[m],
        r,
    ) by {
        if m != k {
            let h = if m == i {
                k
            } else {
                m
            };
            assert(l[h] == list[m]);
            assert(tried_or_not(rest, p, node, before + more, l[h], r));
            if rest.moves.contains(list[m]) {
                let j = choose|j: int| 0 <= j < rest.moves.len() && rest.moves[j] == list[m];
                assert(t.moves[j + more] == list[m]);
            }
        }
    }
}

/// The result is the best of what stood before and of the scores, the line begins with a
/// move that gave it.
spec fn best_of(t: Tries, x: Scan, r: Seen, alpha: int) -> bool {
    let n = t.moves.len();
    &&& r.score >= x.best
    &&& forall|j: int| 0 <= j < n ==> r.score >= #[trigger] t.scores[j]
    &&& r.score == x.best || exists|j: int| 0 <= j < n && r.score == #[trigger] t.scores[j]
    &&& r.score > alpha ==> exists|j: int|
        0 <= j < n && r.score == t.scores[j] && r.line == seq![#[trigger] t.moves[j]] + t.lines[j]
    &&& r.score <= alpha ==> r.line == x.line
}

/// One more move of a node at which no move is tested for standing alone.
proof fn next_try(
    s: Mind,
    p: Position,
    node: Node,
    prev: (PieceType, int),
    before: (PieceType, int),
    list: Seq<Move>,
    scores: Seq<i32>,
    i: int,
    x: Scan,
) -> (u: Mind)
    requires
        forall|m: Mind, mv: Move| !#[trigger] tested(m, node, mv),
        0 <= i,
        x.searched >= 0,
    ensures
        ({
            let w = tried(s, p, node, prev, before, list, scores, i, x);
            let k = first_best(scores, i);
            let mv = list[k];
            let l = swapped(list, i, k);
            let o = swapped(scores, i, k);
            let c = played(
                s,
                p,
                node,
                mv,
                if runs(p, mv) {
                    1
                } else {
                    0
                },
                x.alpha,
                x.searched + 1,
                scores[k] as int,
            );
            if i >= list.len() {
                w == finished(s, p, node, x)
            } else if skipped(s, p, node, mv, scores[k] as int, x) || c is None {
                w == tried(s, p, node, prev, before, l, o, i + 1, x)
            } else if c->0.mind.stopped {
                w.mind.stopped
            } else {
                let f = c->0;
                let y = scanned(x, mv, f);
                &&& same_but_notes(u, f.mind)
                &&& node.ply > 0 ==> u == f.mind
                &&& if f.score > x.best && f.score > x.alpha && f.score >= node.beta {
                    w.score == y.best && w.line == y.line
                } else {
                    w == tried(u, p, node, prev, before, l, o, i + 1, y)
                }
            }
        }),
{
    reveal(tried);
    reveal(stepped);
    reveal(played);
    let k = first_best(scores, i);
    let mv = list[k];
    let hist = scores[k] as int;
    assert(!tested(s, node, mv));
    assert(Scan { line: x.line, ..x } == x);
    let c = played(
        s,
        p,
        node,
        mv,
        if runs(p, mv) {
            1
        } else {
            0
        },
        x.alpha,
        x.searched + 1,
        hist,
    );
    assert(extension_of(p, mv, 0) == if runs(p, mv) {
        1int
    } else {
        0int
    });
    if i < list.len() && !skipped(s, p, node, mv, hist, x) && c is Some && !c->0.mind.stopped {
        let f = c->0;
        let u = if node.ply == 0 {
            noted(f.mind, s.nodes, f.score, x)
        } else {
            f.mind
        };
        assert(same_but_notes(u, f.mind));
        let w = tried(s, p, node, prev, before, list, scores, i, x);
        let step = stepped(s, p, node, prev, before, mv, hist, x);
        assert(step == weighed(s.nodes, p, node, prev, before, mv, x, f));
        u
    } else {
        s
    }
}

/// What the tries of the moves from index `i` on come to.
#[verifier::rlimit(60)]
proof fn tries_from(
    s: Mind,
    p: Position,
    node: Node,
    prev: (PieceType, int),
    before: (PieceType, int),
    list: Seq<Move>,
    scores: Seq<i32>,
    i: int,
    x: Scan,
) -> (t: Tries)
    requires
        forall|m: Mind, mv: Move| !#[trigger] tested(m, node, mv),
        node.excluded.0 == 0,
        node.ply < 127,
        0 <= i,
        list.len() == scores.len(),
        x.best <= x.alpha,
        x.searched >= 0,
        x.searched == 0 ==> x.best == -30000,
        x.alpha < node.beta,
        !tried(s, p, node, prev, before, list, scores, i, x).mind.stopped,
    ensures
        go_on(t, s, p, node, x.alpha, x.searched),
        ({
            let r = tried(s, p, node, prev, before, list, scores, i, x);
            &&& all_tried(t, p, node, x.searched, list, i, r.score)
            &&& x.searched + t.moves.len() > 0 ==> best_of(t, x, r, x.alpha)
            &&& x.searched + t.moves.len() == 0 ==> r.line == x.line && r.score == if node.in_check {
                node.ply - 29000
            } else {
                0
            }
        }),
    decreases list.len() - i,
{
    let u = next_try(s, p, node, prev, before, list, scores, i, x);
    let r = tried(s, p, node, prev, before, list, scores, i, x);
    if i >= list.len() {
        let t = none_tried(s, p, node, x.alpha, x.searched);
        reveal(all_tried);
        t
    } else {
        best_exists(scores, i);
        let k = first_best(scores, i);
        let mv = list[k];
        let l = swapped(list, i, k);
        let o = swapped(scores, i, k);
        let hist = scores[k] as int;
        let c = played(
            s,
            p,
            node,
            mv,
            if runs(p, mv) {
                1
            } else {
                0
            },
            x.alpha,
            x.searched + 1,
            hist,
        );
        if skipped(s, p, node, mv, hist, x) || c is None {
            let t = tries_from(s, p, node, prev, before, l, o, i + 1, x);
            assert(tried_or_not(t, p, node, x.searched, mv, r.score)) by {
                reveal(played);
            }
            all_tried_grows(t, t, p, node, x.searched, 0, list, i, k, r.score);
            t
        } else if c->0.mind.stopped {
            none_tried(s, p, node, x.alpha, x.searched)
        } else {
            let f = c->0;
            let y = scanned(x, mv, f);
            assert(legal(p, mv)) by {
                reveal(played);
            }
            if f.score > x.best && f.score > x.alpha && f.score >= node.beta {
                let rest = none_tried(
                    u,
                    p,
                    node,
                    if f.score > x.alpha {
                        f.score
                    } else {
                        x.alpha
                    },
                    x.searched + 1,
                );
                let t = tried_first(rest, s, u, p, node, x.alpha, x.searched, mv, hist, f);
                assert(t.scores[0] == f.score);
                assert(t.moves[0] == mv);
                assert(t.lines[0] == f.line);
                reveal(all_tried);
                t
            } else {
                let rest = tries_from(u, p, node, prev, before, l, o, i + 1, y);
                let t = tried_first(rest, s, u, p, node, x.alpha, x.searched, mv, hist, f);
                assert(t.scores[0] == f.score);
                assert(t.moves[0] == mv);
                assert(t.lines[0] == f.line);
                all_tried_grows(t, rest, p, node, x.searched, 1, list, i, k, r.score);
                assert(rest.scores.len() == rest.moves.len() && rest.lines.len()
                    == rest.moves.len()) by {
                    reveal(go_on);
                }
                best_of_grows(t, rest, x, y, mv, f, r);
                t
            }
        }
    }
}

proof fn best_of_grows(t: Tries, rest: Tries, x: Scan, y: Scan, mv: Move, f: Seen, r: Seen)
    requires
        best_of(rest, y, r, y.alpha),
        y == scanned(x, mv, f),
        x.best <= x.alpha,
        t.moves == seq![mv] + rest.moves,
        t.scores == seq![f.score] + rest.scores,
        t.lines == seq![f.line] + rest.lines,
        rest.scores.len() == rest.moves.len(),
        rest.lines.len() == rest.moves.len(),
    ensures
        best_of(t, x, r, x.alpha),
{
    assert(t.scores[0] == f.score && t.moves[0] == mv && t.lines[0] == f.line);
    assert forall|j: int| 0 <= j < t.moves.len() implies r.score >= #[trigger] t.scores[j] by {
        if j > 0 {
            assert(t.scores[j] == rest.scores[j - 1]);
        }
    }
    if exists|j: int| 0 <= j < rest.moves.len() && r.score == #[trigger] rest.scores[j] {
        let j = choose|j: int| 0 <= j < rest.moves.len() && r.score == #[trigger] rest.scores[j];
        assert(t.scores[j + 1] == r.score);
    }
    if r.score > y.alpha {
        let j = choose|j: int|
            0 <= j < rest.moves.len() && r.score == rest.scores[j] && r.line == seq![
                #[trigger] rest.moves[j],
            ] + rest.lines[j];
        assert(t.moves[j + 1] == rest.moves[j]);
        assert(t.scores[j + 1] == rest.scores[j]);
        assert(t.lines[j + 1] == rest.lines[j]);
    }
}

proof fn searched_opens(
    s: Mind,
    p: Position,
    alpha: int,
    beta: int,
    depth: int,
    ply: int,
    is_null: bool,
    cut: bool,
)
    requires
        0 <= ply < 127,
        alpha < beta,
        beta - alpha > 1,
        extended_depth(p.in_check(), ply, depth) > 0,
        !crate::search::drawn(p, s.hashes, ply),
        ply > 0 ==> alpha < 29000 - ply && beta > ply - 29000,
        !searched(s, p, alpha, beta, depth, ply, is_null, Move(0), cut).mind.stopped,
    ensures
        ({
            let w = crate::nodes::node_window(alpha, beta, ply);
            searched(s, p, alpha, beta, depth, ply, is_null, Move(0), cut) == opened(
                s.counted().reached(ply),
                p,
                w.0,
                w.1,
                extended_depth(p.in_check(), ply, depth),
                ply,
                is_null,
                Move(0),
                cut,
                true,
            )
        }),
{
    reveal(searched);
    reveal(opened);
}

proof fn opened_searches(
    s: Mind,
    p: Position,
    alpha: int,
    beta: int,
    depth: int,
    ply: int,
    is_null: bool,
    cut: bool,
)
    requires
        0 <= ply < 127,
    ensures
        ({
            let node = node_at(s, p, alpha, beta, depth, ply, is_null, Move(0), cut, true);
            opened(s, p, alpha, beta, depth, ply, is_null, Move(0), cut, true) == moves_searched(
                Mind { evals: s.evals.update(ply, node.static_eval), ..s },
                p,
                reduced(node),
            )
        }),
{
    reveal(opened);
    reveal(moves_searched);
}

proof fn moves_begin(s: Mind, p: Position, node: Node)
    ensures
        ({
            let prev = crate::model::earlier(s, node.ply as int, 1);
            let before = crate::model::earlier(s, node.ply as int, 2);
            let u = if node.ply == 0 {
                Mind { second_best: i32::MIN, root_moves: 0, ..s }
            } else {
                s
            };
            let x = Scan {
                best: -30000,
                best_move: Move(0),
                searched: 0,
                alpha: node.alpha as int,
                line: Seq::empty(),
                quiets: Seq::empty(),
            };
            moves_searched(s, p, node) == tried(
                u,
                p,
                node,
                prev,
                before,
                all_moves(p),
                node_orders(s, p, node, prev, all_moves(p)),
                0,
                x,
            )
        }),
{
    reveal(moves_searched);
    reveal(tried);
}

/// How an open node begins: with all pseudo-legal moves, and nothing found yet.
proof fn open_node_begins(
    s: Mind,
    p: Position,
    alpha: int,
    beta: int,
    depth: int,
    ply: int,
    is_null: bool,
    cut: bool,
) -> (r: (Node, Mind, (PieceType, int), (PieceType, int), Seq<i32>))
    requires
        0 <= ply < 127,
        -30000 <= alpha < beta <= 30000,
        beta - alpha > 1,
        1 <= depth <= 46_000,
        p.halfmove_clock < 100,
        ply > 0 ==> forall|k: int|
            1 <= k && 2 * k <= p.halfmove_clock && 2 * k < s.hashes.len() ==> #[trigger] s.hashes[s.hashes.len()
                - 1 - 2 * k] != p.hash,
        ply > 0 ==> alpha < 29000 - ply && beta > ply - 29000,
        s.entry(p) matches Some(e) ==> e.depth < depth - 4,
        !searched(s, p, alpha, beta, depth, ply, is_null, Move(0), cut).mind.stopped,
    ensures
        ({
            let node = r.0;
            let w = searched(s, p, alpha, beta, depth, ply, is_null, Move(0), cut);
            let d = if p.in_check() && ply < depth + 16 {
                depth + 1
            } else {
                depth
            };
            let x = Scan {
                best: -30000,
                best_move: Move(0),
                searched: 0,
                alpha: node.alpha as int,
                line: Seq::empty(),
                quiets: Seq::empty(),
            };
            &&& w == tried(r.1, p, node, r.2, r.3, all_moves(p), r.4, 0, x)
            &&& r.4.len() == all_moves(p).len()
            &&& node.is_pv && node.ply == ply && node.in_check == p.in_check()
            &&& node.excluded == Move(0)
            &&& forall|m: Mind, mv: Move| !#[trigger] tested(m, node, mv)
            &&& node.depth == if d >= 4 && !p.in_check() && (s.entry(p) matches Some(e)
                ==> e.best_move.0 == 0) {
                d - 1
            } else {
                d
            }
            &&& node.alpha == if ply > 0 && alpha < ply - 29000 {
                ply - 29000
            } else {
                alpha
            }
            &&& node.beta == if ply > 0 && beta > 29000 - ply {
                29000 - ply
            } else {
                beta
            }
            &&& r.1.nodes == s.counted().nodes && r.1.table == s.table && r.1.hashes == s.hashes
                && r.1.nnue == s.nnue
        }),
{
    let c = s.counted().reached(ply);
    let d = extended_depth(p.in_check(), ply, depth);
    let win = crate::nodes::node_window(alpha, beta, ply);
    assert(!crate::search::drawn(p, s.hashes, ply));
    assert(c.entry(p) == s.entry(p));
    let node = node_at(c, p, win.0, win.1, d, ply, is_null, Move(0), cut, true);
    let m = Mind { evals: c.evals.update(ply, node.static_eval), ..c };
    let low = reduced(node);
    searched_opens(s, p, alpha, beta, depth, ply, is_null, cut);
    opened_searches(c, p, win.0, win.1, d, ply, is_null, cut);
    moves_begin(m, p, low);
    let prev = crate::model::earlier(m, low.ply as int, 1);
    let before = crate::model::earlier(m, low.ply as int, 2);
    let list = all_moves(p);
    let u = if low.ply == 0 {
        Mind { second_best: i32::MIN, root_moves: 0, ..m }
    } else {
        m
    };
    let o = node_orders(m, p, low, prev, list);
    (low, u, prev, before, o)
}

/// A node with an open window that nothing decides at once, and which the table knows from
/// a much shallower search at most, tries every legal move, unless beta is reached first.
/// Its score is the best of theirs, and its line begins with a move that has it; without a
/// legal move it is that of a mate, by the plies to it, or of a stalemate. What each of
/// the moves leaves is known to the next.
#[verifier::rlimit(40)]
pub proof fn open_nodes_try_all_moves(
    s: Mind,
    p: Position,
    alpha: int,
    beta: int,
    depth: int,
    ply: int,
    is_null: bool,
    cut: bool,
) -> (r: (Tries, Node))
    requires
        playable(p),
        0 <= ply < 127,
        -30000 <= alpha < beta <= 30000,
        beta - alpha > 1,
        1 <= depth <= 46_000,
        p.halfmove_clock < 100,
        ply > 0 ==> forall|k: int|
            1 <= k && 2 * k <= p.halfmove_clock && 2 * k < s.hashes.len() ==> #[trigger] s.hashes[s.hashes.len()
                - 1 - 2 * k] != p.hash,
        ply > 0 ==> alpha < 29000 - ply && beta > ply - 29000,
        s.entry(p) matches Some(e) ==> e.depth < depth - 4,
        !searched(s, p, alpha, beta, depth, ply, is_null, Move(0), cut).mind.stopped,
    ensures
        ({
            let t = r.0;
            let node = r.1;
            let w = searched(s, p, alpha, beta, depth, ply, is_null, Move(0), cut);
            let n = t.moves.len();
            let d = if p.in_check() && ply < depth + 16 {
                depth + 1
            } else {
                depth
            };
            &&& node.is_pv && node.ply == ply && node.in_check == p.in_check()
            &&& node.depth == if d >= 4 && !p.in_check() && (s.entry(p) matches Some(e)
                ==> e.best_move.0 == 0) {
                d - 1
            } else {
                d
            }
            &&& node.alpha == if ply > 0 && alpha < ply - 29000 {
                ply - 29000
            } else {
                alpha
            }
            &&& node.beta == if ply > 0 && beta > 29000 - ply {
                29000 - ply
            } else {
                beta
            }
            &&& t.minds.len() == n + 1 && t.alphas.len() == n + 1 && t.scores.len() == n
                && t.lines.len() == n && t.hists.len() == n
            &&& t.alphas[0] == node.alpha
            &&& t.minds[0].nodes == s.counted().nodes && t.minds[0].table == s.table
                && t.minds[0].hashes == s.hashes && t.minds[0].nnue == s.nnue
            &&& forall|mv: Move| #[trigger] legal(p, mv) ==> t.moves.contains(mv) || w.score
                >= node.beta
            &&& legal_moves(p).len() == 0 ==> n == 0 && w.score == if p.in_check() {
                ply - 29000
            } else {
                0
            }
            &&& legal_moves(p).len() > 0 ==> n > 0 && (w.score == -30000 || exists|j: int|
                0 <= j < n && w.score == #[trigger] t.scores[j])
            &&& w.score > node.alpha && n > 0 ==> exists|j: int|
                0 <= j < n && w.score == t.scores[j] && w.line == seq![#[trigger] t.moves[j]]
                    + t.lines[j]
            &&& w.score <= node.alpha ==> w.line.len() == 0
            &&& forall|j: int|
                #![trigger t.moves[j]]
                #![trigger t.scores[j]]
                0 <= j < n ==> {
                    let c = played(
                        t.minds[j],
                        p,
                        node,
                        t.moves[j],
                        if runs(p, t.moves[j]) {
                            1
                        } else {
                            0
                        },
                        t.alphas[j],
                        j + 1,
                        t.hists[j],
                    );
                    &&& legal(p, t.moves[j])
                    &&& c matches Some(f) && t.scores[j] == f.score && t.lines[j] == f.line
                        && same_but_notes(t.minds[j + 1], f.mind)
                    &&& w.score >= t.scores[j]
                    &&& t.alphas[j + 1] == if t.scores[j] > t.alphas[j] {
                        t.scores[j]
                    } else {
                        t.alphas[j]
                    }
                }
        }),
{
    sound_facts(p);
    let b = open_node_begins(s, p, alpha, beta, depth, ply, is_null, cut);
    let low = b.0;
    let list = all_moves(p);
    let x = Scan {
        best: -30000,
        best_move: Move(0),
        searched: 0,
        alpha: low.alpha as int,
        line: Seq::empty(),
        quiets: Seq::empty(),
    };
    let w = searched(s, p, alpha, beta, depth, ply, is_null, Move(0), cut);
    let t = tries_from(b.1, p, low, b.2, b.3, list, b.4, 0, x);
    reveal(go_on);
    assert forall|mv: Move| #[trigger] legal(p, mv) implies t.moves.contains(mv) || (w.score
        >= low.beta && t.moves.len() > 0) by {
        all_moves_are_pseudo_legal(p, mv);
        let k = choose|k: int| 0 <= k < list.len() && list[k] == mv;
        reveal(all_tried);
        assert(tried_or_not(t, p, low, 0, list[k], w.score));
    }
    assert forall|j: int| 0 <= j < t.moves.len() implies #[trigger] try_at(t, p, low, 0, j) && w.score
        >= t.scores[j] && legal(p, t.moves[j]) by {
        assert(best_of(t, x, w, x.alpha));
        assert(w.score >= t.scores[j]);
        assert(try_at(t, p, low, x.searched, j));
    }
    if t.moves.len() > 0 {
        assert(try_at(t, p, low, 0, 0));
        crate::quiet::has_legal_move(p, t.moves[0]);
    } else if legal_moves(p).len() > 0 {
        let mv = legal_moves(p)[0];
        assert(legal_moves(p).contains(mv));
        legal_moves_are_legal(p, mv);
    }
    assert forall|j: int|
        #![trigger t.moves[j]]
        #![trigger t.scores[j]]
        0 <= j < t.moves.len() implies try_at(t, p, low, 0, j) && w.score >= t.scores[j] by {
    }
    (t, low)
}

/// A node with a closed window, which is expected to be decided at once, is given up, or
/// tries its moves like an open one. Then the first legal move is always tried, a side in
/// check tries every one unless beta is reached, and a side without a move is mated or in
/// stalemate; the score is the best of those of the moves that were tried.
#[verifier::rlimit(40)]
pub proof fn closed_nodes_try_moves(
    s: Mind,
    p: Position,
    beta: int,
    depth: int,
    ply: int,
    is_null: bool,
    cut: bool,
) -> (r: (Tries, Node, (Mind, Option<int>)))
    requires
        playable(p),
        0 < ply < 127,
        ply - 29000 < beta - 1 && beta < 29000 - ply,
        1 <= depth <= 46_000,
        p.halfmove_clock < 100,
        forall|k: int|
            1 <= k && 2 * k <= p.halfmove_clock && 2 * k < s.hashes.len() ==> #[trigger] s.hashes[s.hashes.len()
                - 1 - 2 * k] != p.hash,
        s.entry(p) matches Some(e) ==> e.depth < depth - 4,
        !searched(s, p, beta - 1, beta, depth, ply, is_null, Move(0), cut).mind.stopped,
    ensures
        ({
            let t = r.0;
            let node = r.1;
            let w = searched(s, p, beta - 1, beta, depth, ply, is_null, Move(0), cut);
            let n = t.moves.len();
            &&& !node.is_pv && node.ply == ply && node.in_check == p.in_check()
            &&& node.alpha == beta - 1 && node.beta == beta
            &&& p.in_check() ==> r.2.1 is None
            &&& r.2.1 matches Some(v) ==> w.score == v && w.line.len() == 0
            &&& r.2.1 is None ==> {
                &&& t.minds.len() == n + 1 && t.alphas.len() == n + 1 && t.scores.len() == n
                    && t.lines.len() == n && t.hists.len() == n
                &&& t.alphas[0] == beta - 1
                &&& t.minds[0] == r.2.0
                &&& legal_moves(p).len() == 0 ==> n == 0 && w.score == if p.in_check() {
                    ply - 29000
                } else {
                    0
                }
                &&& legal_moves(p).len() > 0 ==> n > 0
                &&& n > 0 ==> w.score == -30000 || exists|j: int|
                    0 <= j < n && w.score == #[trigger] t.scores[j]
                &&& p.in_check() ==> forall|mv: Move| #[trigger]
                    legal(p, mv) ==> t.moves.contains(mv) || w.score >= beta
                &&& forall|j: int|
                    #![trigger t.moves[j]]
                    #![trigger t.scores[j]]
                    0 <= j < n ==> {
                        let c = played(
                            t.minds[j],
                            p,
                            node,
                            t.moves[j],
                            if runs(p, t.moves[j]) {
                                1
                            } else {
                                0
                            },
                            t.alphas[j],
                            j + 1,
                            t.hists[j],
                        );
                        &&& legal(p, t.moves[j])
                        &&& c matches Some(f) && t.scores[j] == f.score && t.lines[j] == f.line
                            && t.minds[j + 1] == f.mind
                        &&& w.score >= t.scores[j]
                    }
            }
        }),
{
    sound_facts(p);
    let alpha = beta - 1;
    let c = s.counted().reached(ply);
    let d = extended_depth(p.in_check(), ply, depth);
    let win = crate::nodes::node_window(alpha, beta, ply);
    assert(!crate::search::drawn(p, s.hashes, ply));
    assert(win == (alpha, beta));
    assert(c.entry(p) == s.entry(p));
    let node = node_at(c, p, alpha, beta, d, ply, is_null, Move(0), cut, false);
    let m = Mind { evals: c.evals.update(ply, node.static_eval), ..c };
    let w = searched(s, p, alpha, beta, depth, ply, is_null, Move(0), cut);
    let g = closed_node_begins(s, p, beta, depth, ply, is_null, cut);
    let low = reduced(node);
    match g.1 {
        Some(v) => (none_tried(c, p, low, alpha, 0), low, g),
        None => {
            moves_begin(g.0, p, low);
            let prev = crate::model::earlier(g.0, low.ply as int, 1);
            let before = crate::model::earlier(g.0, low.ply as int, 2);
            let list = all_moves(p);
            let o = node_orders(g.0, p, low, prev, list);
            let x = Scan {
                best: -30000,
                best_move: Move(0),
                searched: 0,
                alpha: low.alpha as int,
                line: Seq::empty(),
                quiets: Seq::empty(),
            };
            let t = tries_from(g.0, p, low, prev, before, list, o, 0, x);
            reveal(go_on);
            assert forall|mv: Move| #[trigger] legal(p, mv) implies t.moves.len() > 0 && (
            t.moves.contains(mv) || w.score >= low.beta || !p.in_check()) by {
                all_moves_are_pseudo_legal(p, mv);
                let k = choose|k: int| 0 <= k < list.len() && list[k] == mv;
                reveal(all_tried);
                assert(tried_or_not(t, p, low, 0, list[k], w.score));
            }
            assert forall|j: int|
                #![trigger t.moves[j]]
                #![trigger t.scores[j]]
                0 <= j < t.moves.len() implies try_at(t, p, low, 0, j) && w.score >= t.scores[j]
                && legal(p, t.moves[j]) by {
                assert(best_of(t, x, w, x.alpha));
                assert(w.score >= t.scores[j]);
                assert(try_at(t, p, low, x.searched, j));
            }
            if t.moves.len() > 0 {
                assert(legal(p, t.moves[0]));
                crate::quiet::has_legal_move(p, t.moves[0]);
            } else if legal_moves(p).len() > 0 {
                let mv = legal_moves(p)[0];
                assert(legal_moves(p).contains(mv));
                legal_moves_are_legal(p, mv);
            }
            (t, low, g)
        },
    }
}

/// How a closed node begins: it is given up, or its moves are searched.
proof fn closed_node_begins(
    s: Mind,
    p: Position,
    beta: int,
    depth: int,
    ply: int,
    is_null: bool,
    cut: bool,
) -> (g: (Mind, Option<int>))
    requires
        0 < ply < 127,
        ply - 29000 < beta - 1 && beta < 29000 - ply,
        1 <= depth <= 46_000,
        !crate::search::drawn(p, s.hashes, ply),
        s.entry(p) matches Some(e) ==> e.depth < depth - 4,
        !searched(s, p, beta - 1, beta, depth, ply, is_null, Move(0), cut).mind.stopped,
    ensures
        ({
            let c = s.counted().reached(ply);
            let d = extended_depth(p.in_check(), ply, depth);
            let node = node_at(c, p, beta - 1, beta, d, ply, is_null, Move(0), cut, false);
            let m = Mind { evals: c.evals.update(ply, node.static_eval), ..c };
            let w = searched(s, p, beta - 1, beta, depth, ply, is_null, Move(0), cut);
            &&& g == if p.in_check() {
                (m, None::<int>)
            } else {
                given_up(m, p, node)
            }
            &&& g.1 matches Some(v) ==> w.score == v && w.line.len() == 0
            &&& g.1 is None ==> w == moves_searched(g.0, p, reduced(node))
        }),
{
    let c = s.counted().reached(ply);
    let d = extended_depth(p.in_check(), ply, depth);
    let node = node_at(c, p, beta - 1, beta, d, ply, is_null, Move(0), cut, false);
    let m = Mind { evals: c.evals.update(ply, node.static_eval), ..c };
    assert(searched(s, p, beta - 1, beta, depth, ply, is_null, Move(0), cut) == opened(
        c,
        p,
        beta - 1,
        beta,
        d,
        ply,
        is_null,
        Move(0),
        cut,
        false,
    )) by {
        reveal(searched);
        reveal(opened);
    }
    closed_opens(c, p, beta, d, ply, is_null, cut);
    if p.in_check() {
        (m, None)
    } else {
        given_up(m, p, node)
    }
}

proof fn closed_opens(
    s: Mind,
    p: Position,
    beta: int,
    depth: int,
    ply: int,
    is_null: bool,
    cut: bool,
)
    requires
        0 <= ply < 127,
        s.entry(p) matches Some(e) ==> e.depth < depth,
    ensures
        ({
            let node = node_at(s, p, beta - 1, beta, depth, ply, is_null, Move(0), cut, false);
            let m = Mind { evals: s.evals.update(ply, node.static_eval), ..s };
            let w = opened(s, p, beta - 1, beta, depth, ply, is_null, Move(0), cut, false);
            let g = if p.in_check() {
                (m, None::<int>)
            } else {
                given_up(m, p, node)
            };
            &&& g.1 matches Some(v) ==> w.score == v && w.line.len() == 0
            &&& g.1 is None ==> w == moves_searched(g.0, p, reduced(node))
        }),
{
    reveal(opened);
    reveal(given_up);
    reveal(moves_searched);
}

/// An entry of the table that is deep enough decides a node with a closed window: an exact
/// one, a lower limit at beta or above, or an upper limit at alpha or below. A shallower
/// one does not, nor does any entry at a node with an open window.
pub proof fn deep_entries_decide(
    s: Mind,
    p: Position,
    beta: int,
    depth: int,
    ply: int,
    is_null: bool,
    cut: bool,
    e: TTEntry,
)
    requires
        0 < ply < 127,
        ply - 29000 < beta - 1 && beta < 29000 - ply,
        1 <= depth <= 46_000,
        !p.in_check(),
        !crate::search::drawn(p, s.hashes, ply),
        s.entry(p) == Some(e),
        !searched(s, p, beta - 1, beta, depth, ply, is_null, Move(0), cut).mind.stopped,
    ensures
        ({
            let w = searched(s, p, beta - 1, beta, depth, ply, is_null, Move(0), cut);
            let v = seen_score(e.score as int, ply);
            e.depth >= depth && (e.flag & 0x03 == 1 || e.flag & 0x03 == 2 && v >= beta || e.flag
                & 0x03 == 3 && v <= beta - 1) ==> w.score == v && w.line.len() == 0
        }),
        e.depth < depth ==> !entry_cuts(s, p, beta - 1, beta, depth, ply, Move(0), false),
        !entry_cuts(s, p, beta - 1, beta, depth, ply, Move(0), true),
{
    let c = s.counted().reached(ply);
    assert(c.entry(p) == s.entry(p));
    assert(searched(s, p, beta - 1, beta, depth, ply, is_null, Move(0), cut) == opened(
        c,
        p,
        beta - 1,
        beta,
        depth,
        ply,
        is_null,
        Move(0),
        cut,
        false,
    )) by {
        reveal(searched);
        reveal(opened);
    }
    reveal(opened);
}

/// How a move is searched at a node with an open window. Its score is that of the
/// position after it, with the sign turned. The first move is searched with the whole
/// window. Every other is searched with a closed one above alpha first, a late quiet one
/// at a smaller depth, and again with the whole window only where it rises above alpha.
pub proof fn moves_are_searched_so(
    s: Mind,
    p: Position,
    node: Node,
    mv: Move,
    ext: int,
    alpha: int,
    number: int,
    hist: int,
) -> (e: int)
    requires
        legal(p, mv),
        node.ply < 127,
        node.is_pv,
        number >= 1,
    ensures
        ({
            let c = after(p, mv);
            let d = node.depth - 1 + ext;
            let k = child_mind(s, p, node, mv);
            let late = number > 3 && node.depth >= 3 && !mv.captures() && !mv.promotes()
                && !node.in_check;
            let f = played(s, p, node, mv, ext, alpha, number, hist);
            &&& k.hashes == s.hashes.push(c.hash) && k.table == s.table && k.nodes == s.nodes
            &&& f is Some
            &&& number == 1 ==> {
                let w = searched(
                    k,
                    c,
                    -node.beta,
                    -alpha,
                    d,
                    node.ply + 1,
                    false,
                    Move(0),
                    false,
                );
                f->0.score == -w.score && f->0.line == w.line
            }
            &&& number > 1 && !late ==> {
                let a = searched(
                    k,
                    c,
                    -alpha - 1,
                    -alpha,
                    d,
                    node.ply + 1,
                    false,
                    Move(0),
                    !node.cut_node,
                );
                let w = searched(
                    a.mind,
                    c,
                    -node.beta,
                    -alpha,
                    d,
                    node.ply + 1,
                    false,
                    Move(0),
                    false,
                );
                f->0.score == if -a.score > alpha {
                    -w.score
                } else {
                    -a.score
                }
            }
            &&& e >= 1
            &&& late ==> {
                    let a = searched(
                        k,
                        c,
                        -alpha - 1,
                        -alpha,
                        e,
                        node.ply + 1,
                        false,
                        Move(0),
                        !node.cut_node,
                    );
                    let b = if -a.score > alpha && e < d {
                        searched(
                            a.mind,
                            c,
                            -alpha - 1,
                            -alpha,
                            d,
                            node.ply + 1,
                            false,
                            Move(0),
                            !node.cut_node,
                        )
                    } else {
                        a
                    };
                    f->0.score == if -b.score > alpha {
                        -searched(
                            b.mind,
                            c,
                            -node.beta,
                            -alpha,
                            d,
                            node.ply + 1,
                            false,
                            Move(0),
                            false,
                        ).score
                    } else {
                        -b.score
                    }
                }
        }),
{
    reveal(played);
    reveal(scouted);
    reveal(searched);
    let c = after(p, mv);
    let k = child_mind(s, p, node, mv);
    let d = node.depth - 1 + ext;
    let e = crate::model::late_depth(k, c, node, d, alpha, number, hist);
    crate::types::move_parts_roundtrip(mv);
    e
}

/// A position that is drawn by repetition or by the fifty-move rule has the score of a
/// draw, whatever the window and the depth.
pub proof fn drawn_nodes_are_draws(
    s: Mind,
    p: Position,
    alpha: int,
    beta: int,
    depth: int,
    ply: int,
    is_null: bool,
    excluded: Move,
    cut: bool,
    k: int,
)
    requires
        0 < ply < 127,
        p.halfmove_clock >= 100 || 1 <= k && 2 * k <= p.halfmove_clock && 2 * k < s.hashes.len()
            && s.hashes[s.hashes.len() - 1 - 2 * k] == p.hash,
        !s.stopped,
        !searched(s, p, alpha, beta, depth, ply, is_null, excluded, cut).mind.stopped,
    ensures
        ({
            let w = searched(s, p, alpha, beta, depth, ply, is_null, excluded, cut);
            &&& w.score == draw_score(p)
            &&& -10 <= w.score <= 10
            &&& w.line.len() == 0
        }),
{
    reveal(searched);
    reveal(opened);
    if p.halfmove_clock < 100 {
        assert(s.hashes[s.hashes.len() - 1 - 2 * k] == p.hash);
        assert(crate::decide::repeated(s.hashes, p.hash, p.halfmove_clock as int));
    }
}

/// Without depth the node is left to quiescence, and no mate that is too late to matter
/// is searched: the score is then that of the earliest mate.
pub proof fn horizon_and_mates(
    s: Mind,
    p: Position,
    alpha: int,
    beta: int,
    depth: int,
    ply: int,
    is_null: bool,
    excluded: Move,
    cut: bool,
)
    requires
        0 < ply < 127,
        alpha < beta,
        p.halfmove_clock < 100,
        forall|k: int|
            1 <= k && 2 * k <= p.halfmove_clock && 2 * k < s.hashes.len() ==> #[trigger] s.hashes[s.hashes.len()
                - 1 - 2 * k] != p.hash,
        !searched(s, p, alpha, beta, depth, ply, is_null, excluded, cut).mind.stopped,
    ensures
        ({
            let w = searched(s, p, alpha, beta, depth, ply, is_null, excluded, cut);
            &&& depth <= 0 && !p.in_check() ==> w == quiesced(s, p, alpha, beta, ply)
            &&& depth > 0 && alpha >= 29000 - ply ==> w.score == 29000 - ply
            &&& depth > 0 && beta <= ply - 29000 ==> w.score == ply - 29000
        }),
{
    reveal(searched);
    reveal(opened);
    assert(!crate::search::drawn(p, s.hashes, ply));
}

/// Passing the turn is answered by the other side, at a smaller depth, and its score is
/// turned round: it tells whether the score stays at beta even so.
pub proof fn passing_is_answered(s: Mind, p: Position, node: Node) -> (d: int)
    requires
        s.tune.in_range(),
        1 <= node.depth,
        node.ply < 127,
        node.static_eval >= node.beta,
    ensures
        d < node.depth - 1,
        ({
            let q = passed_turn(p);
            let k = s.stacked(node.ply as int, Move(0), PieceType::NoType).pushed(q.hash);
            passed(s, p, node).1 == -searched(
                k,
                q,
                -node.beta,
                1 - node.beta,
                d,
                node.ply + 1,
                true,
                Move(0),
                !node.cut_node,
            ).score
        }),
{
    reveal(passed);
    reveal(searched);
    let r = crate::decide::null_reduction(
        s.tune,
        node.depth as int,
        node.static_eval as int,
        node.beta as int,
        node.improving,
    );
    crate::weighing::depth_sets_the_margins(
        s.tune,
        node.depth as int,
        node.depth as int,
        node.static_eval as int,
        node.static_eval as int,
        node.beta as int,
    );
    assert(-node.beta + 1 == 1 - node.beta);
    node.depth - r - 1
}

/// A node is given up before its moves are tried only where its score lies outside the
/// window: the evaluation stands above beta by a margin, the score holds above beta even
/// after passing the turn, quiescence does not rise above alpha, or a capture exceeds
/// beta.
#[verifier::rlimit(40)]
pub proof fn nodes_are_given_up_outside(s: Mind, p: Position, node: Node)
    requires
        s.tune.in_range(),
        1 <= node.depth,
        node.ply < 127,
        given_up(s, p, node).1 is Some,
        !given_up(s, p, node).0.stopped,
    ensures
        ({
            let v = given_up(s, p, node).1->0;
            let list = crate::movegen::capture_moves(p);
            let o = exchange_orders(p, list);
            ||| v == node.static_eval && v >= node.beta + 20 * node.depth
            ||| v == passed(s, p, node).1 && v >= node.beta && !node.is_null && node.static_eval
                >= node.beta
            ||| v <= node.alpha
            ||| exists|m: Mind| (#[trigger] cut_by_captures(m, p, node, list, o, 0)).1 == Some(v)
        }),
{
    reveal(given_up);
    reveal(passed);
    reveal(cut_by_captures);
    reveal(quiesced);
    let t = s.tune;
    assert(t.values@[0] >= 30 && t.values@[1] >= 20);
    let margin = if node.improving {
        crate::decide::param(t, crate::tune::RFP_MARGIN_IMP)
    } else {
        crate::decide::param(t, crate::tune::RFP_MARGIN_NIMP)
    };
    assert(margin >= 20);
    assert(margin * node.depth >= 20 * node.depth) by (nonlinear_arith)
        requires
            margin >= 20,
            node.depth >= 1,
    ;
    let n = passed(s, p, node);
    let t = if tries_null(p, node) {
        n.0
    } else {
        s
    };
    let q = quiesced(t, p, node.alpha as int, node.beta as int, node.ply as int);
    let u = if razored(t.tune, node) {
        q.mind
    } else {
        t
    };
    let list = crate::movegen::capture_moves(p);
    let o = exchange_orders(p, list);
    let g = given_up(s, p, node);
    let v = g.1->0;
    let far = far_above(
        s.tune,
        node.improving,
        node.depth as int,
        node.static_eval as int,
        node.beta as int,
    );
    if !far && !(tries_null(p, node) && (n.0.stopped || n.1 >= node.beta)) && !(razored(
        t.tune,
        node,
    ) && q.score <= node.alpha) {
        assert(g == cut_by_captures(u, p, node, list, o, 0) || g == (u, None::<int>));
        assert(cut_by_captures(u, p, node, list, o, 0).1 == Some(v));
    }
}

/// Whether the table's move stands alone is told by a search of the same position without
/// it, to half the depth and below its score by a margin: where that fails, the move is
/// searched a ply deeper; where it reaches beta, the node is cut.
pub proof fn lone_moves_are_extended(s: Mind, p: Position, node: Node, mv: Move, tt_score: int) -> (
    goal: int)
    requires
        s.tune.in_range(),
        node.excluded == Move(0),
        mv.0 != 0,
        1 <= node.depth <= 46_000,
        -30000 <= tt_score <= 30000,
    ensures
        goal < tt_score,
        ({
            let f = searched(
                s,
                p,
                goal - 1,
                goal,
                (node.depth - 1) / 2,
                node.ply as int,
                false,
                mv,
                node.cut_node,
            );
            let r = singled_out(s, p, node, mv, tt_score);
            &&& r.0 == f.mind
            &&& !f.mind.stopped && f.score < goal ==> r.1 == Singular::Extend(1)
            &&& !f.mind.stopped && f.score >= goal && f.score >= node.beta ==> r.1 == Singular::Cut(
                f.score as i32,
            )
            &&& !f.mind.stopped && goal <= f.score < node.beta && node.cut_node ==> r.1
                == Singular::Extend((-1) as i32)
            &&& !f.mind.stopped && goal <= f.score < node.beta && !node.cut_node ==> r.1
                == Singular::Extend(0)
            &&& f.mind.stopped ==> r.1 is Halted
        }),
{
    reveal(singled_out);
    reveal(searched);
    let m = param(s.tune, crate::tune::SE_MARGIN_MUL);
    assert(s.tune.values@[crate::tune::SE_MARGIN_MUL as int] >= 1);
    assert(node.depth * m >= 1) by (nonlinear_arith)
        requires
            m >= 1,
            node.depth >= 1,
    ;
    tt_score - node.depth * m
}

// ---- Iterations ----
proof fn widened_holds(
    s: Mind,
    p: Position,
    depth: int,
    alpha: int,
    beta: int,
    delta: int,
    wide: bool,
) -> (r: (Mind, int, int))
    requires
        wide || 10 <= delta <= 500,
        wide ==> alpha == -30000 && beta == 30000,
        -30000 <= alpha < beta <= 30000,
    ensures
        ({
            let f = widened(s, p, depth, alpha, beta, delta, wide);
            &&& f == searched(r.0, p, r.1, r.2, depth, 0, false, Move(0), false)
            &&& -30000 <= r.1 < r.2 <= 30000
            &&& f.mind.stopped || r.1 < f.score < r.2 || r.1 == -30000 && r.2 == 30000
        }),
    decreases
            (if wide {
                0
            } else {
                1000 - delta
            }),
{
    reveal(widened);
    let f = searched(s, p, alpha, beta, depth, 0, false, Move(0), false);
    if f.mind.stopped || wide || alpha < f.score < beta {
        (s, alpha, beta)
    } else {
        let a = if f.score <= alpha {
            at_least(f.score - delta, -30000)
        } else {
            alpha
        };
        let b = at_most(f.score + delta, 30000);
        let d = delta + delta / 2;
        if d > 500 || a >= b {
            widened_holds(f.mind, p, depth, -30000, 30000, d, true)
        } else {
            widened_holds(f.mind, p, depth, a, b, d, false)
        }
    }
}

/// The score of an iteration lies within the window that the root was searched with, or
/// that window was wide open: a score at its edge is not taken for the result. The first
/// iterations are searched with the whole window at once.
pub proof fn iterations_end_within_the_window(s: Mind, p: Position, depth: int, prev: int) -> (r: (
    Mind,
    int,
    int,
))
    requires
        s.tune.in_range(),
        -30000 <= prev <= 30000,
    ensures
        ({
            let f = aspired(s, p, depth, prev);
            &&& f == searched(r.0, p, r.1, r.2, depth, 0, false, Move(0), false)
            &&& f.mind.stopped || r.1 < f.score < r.2 || r.1 == -30000 && r.2 == 30000
            &&& depth <= 4 ==> r.0 == s && r.1 == -30000 && r.2 == 30000
        }),
{
    let delta = param(s.tune, ASP_DELTA);
    let alpha = at_least(prev - delta, -30000);
    let beta = at_most(prev + delta, 30000);
    assert(least_value(ASP_DELTA as int) <= s.tune.values@[ASP_DELTA as int] <= largest_value(
        ASP_DELTA as int,
    ));
    if depth <= 4 {
        (s, -30000, 30000)
    } else if alpha >= beta {
        widened_holds(s, p, depth, -30000, 30000, delta, true)
    } else {
        widened_holds(s, p, depth, alpha, beta, delta, false)
    }
}

/// An iteration that is cut short leaves move, score and line as the last whole one gave
/// them. A whole one gives its own: the score of the search to its depth, and the first
/// move of its line. The next one goes a ply deeper, unless a win is confirmed.
pub proof fn whole_iterations_count(c: Course, p: Position)
    ensures
        ({
            let f = aspired(c.mind, p, c.depth, c.score);
            let n = iterated(c, p);
            &&& c.depth > 1 && f.mind.stopped ==> n.done && n.best_move == c.best_move && n.score
                == c.score && n.line == c.line && n.completed == c.completed
            &&& !f.mind.stopped ==> n.score == f.score && n.completed == c.depth && n.mind == f.mind
            &&& !f.mind.stopped && f.line.len() > 0 ==> n.line == f.line && n.best_move == f.line[0]
            &&& !f.mind.stopped && f.score < 28744 ==> !n.done && n.depth == c.depth + 1
            &&& !f.mind.stopped && f.score >= 28744 && c.depth >= 29000 - f.score ==> n.done
        }),
{
}

/// A search goes on to its depth: it ends before only where a win is confirmed, or a limit
/// of the nodes is reached.
pub proof fn searches_reach_their_depth(c: Course, p: Position, max_depth: int, soft: int)
    requires
        1 <= c.depth,
        c.completed == c.depth - 1 || c.done,
        max_depth >= 1,
    ensures
        ({
            let r = deepened(c, p, max_depth, soft);
            &&& r.done
            &&& r.completed >= max_depth || r.mind.stopped || c.done || soft > 0 && r.mind.nodes
                >= soft || r.score >= 28744 && r.completed >= 29000 - r.score
        }),
    decreases
            (if c.done {
                0
            } else {
                max_depth - c.depth + 1
            }),
{
    if !ends(c, max_depth, soft) {
        let n = iterated(c, p);
        if n.done {
            assert(deepened(n, p, max_depth, soft) == (Course { done: true, ..n }));
        } else {
            searches_reach_their_depth(n, p, max_depth, soft);
        }
    }
}

/// A search begins with what the last one has learnt, halved: killers and counters are
/// forgotten, the table is kept but ages, and of the line only the game is left.
pub proof fn searches_begin_so(s: Mind, game: int, limit: u64, i: int)
    requires
        0 <= i < s.history.len(),
        0 <= game <= s.hashes.len(),
        -16384 <= s.history[i] <= 16384,
    ensures
        ({
            let c = begun(s, game, limit);
            let m = c.mind;
            &&& c.depth == 1 && c.completed == 0 && !c.done && c.best_move == Move(0)
            &&& m.nodes == 0 && !m.stopped && m.limit == limit
            &&& m.table == s.table && m.gen != s.gen
            &&& s.history[i] >= 0 ==> 2 * m.history[i] <= s.history[i] <= 2 * m.history[i] + 1
            &&& s.history[i] <= 0 ==> 2 * m.history[i] - 1 <= s.history[i] <= 2 * m.history[i]
            &&& forall|k: int, mv: Move|
                0 <= k < 128 && mv.0 != 0 ==> #[trigger] crate::ordering::killer_score(
                    m.killers,
                    k,
                    mv,
                ) is None
            &&& m.hashes.len() == game && m.hashes == s.hashes.take(game)
            &&& m.counters == s.counters && m.corrections == s.corrections && m.nnue == s.nnue
        }),
{
}

/// Each node is counted once. A limit of the nodes ends the search when it is reached, at a
/// multiple of 2048 nodes; without a limit nothing does.
pub proof fn nodes_are_counted(s: Mind)
    requires
        s.nodes < 1_000_000_000,
        !s.stopped,
    ensures
        s.counted().nodes == s.nodes + 1,
        s.limit == 0 ==> !s.counted().stopped,
        s.nodes + 1 < s.limit ==> !s.counted().stopped,
        (s.nodes + 1) % 2048 != 0 ==> !s.counted().stopped,
        (s.nodes + 1) % 2048 == 0 && 0 < s.limit <= s.nodes + 1 ==> s.counted().stopped,
        s.counted().table == s.table && s.counted().hashes == s.hashes,
{
}

} // verus!
