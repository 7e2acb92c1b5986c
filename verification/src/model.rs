//! What a search comes to, as a function of the position, the limits of the node
//! and what the search has learnt so far. The clock, signals and tablebases take no
//! part: a search in which they have no say gives exactly this.

use crate::board::{after, Position};
use crate::decide::{
    cuts, decisive, draw_score, faded, far_above, kept_score, late_count, may_be_singular,
    null_reduction, param, seen_score, settled,
};
use crate::eval::evaluation;
use crate::lmr::{base_reduction, reduction, LmrInputs};
use crate::movegen::{all_moves, capture_moves};
use crate::moves::{prunes, quiet, Singular};
use crate::nnue::{network_value, Nnue};
use crate::nodes::{exclusion_rank, extended_depth, mate_closes, node_window, Node};
use crate::num::{at_least, at_most, depth_bonus, gravity};
use crate::ordering::{
    capture_index, cont_index, corrected, correction_index, correction_of, counter_index,
    first_best, halved, history_index, killer_score, order_of, see_at_least, swapped, Correction,
    KillerPair, OrderingInputs, MAX_PLY,
};
use crate::play::passed_turn;
use crate::quiet::{evades, exchange_order, hopeless};
use crate::rules::legal;
use crate::search::{bucket_of_count, drawn};
use crate::tablebase::piece_count;
use crate::tt::{
    found, new_entry, short_key, stored, SharedTT, TTBucket, TTEntry, FLAG_TYPE_MASK, FLAG_WAS_PV,
};
use crate::tune::{
    default_tunables, default_value, Tunables, ASP_DELTA, FP_DEPTH, FP_MARGIN_ADD, FP_MARGIN_MUL, LMR_DIVISOR, LMR_HIST_DIV,
    PROBCUT_DEPTH, PROBCUT_MARGIN, RAZOR_DEPTH, RAZOR_MARGIN, SE_MARGIN_MUL,
};
use crate::types::{type_of, Color, Move, PieceType};
use vstd::prelude::*;

verus! {

// ---- What a search knows ----
/// What a search knows and has learnt, as far as its results depend on it, and
/// what it notes of the root.
#[verifier::ext_equal]
pub struct Mind {
    pub nodes: u64,
    pub table: Seq<TTBucket>,
    pub mask: usize,
    pub gen: u8,
    pub killers: Seq<KillerPair>,
    pub history: Seq<i32>,
    pub counters: Seq<Move>,
    pub cont: Seq<i32>,
    pub cont2: Seq<i32>,
    pub captures: Seq<i32>,
    pub corrections: Seq<Correction>,
    pub seldepth: i32,
    pub evals: Seq<i32>,
    pub moves: Seq<Move>,
    pub pieces: Seq<PieceType>,
    pub hashes: Seq<u64>,
    pub first_nodes: u64,
    pub second_best: i32,
    pub root_moves: u32,
    pub nnue: Nnue,
    pub tune: Tunables,
    pub reductions: Seq<i32>,
    /// The hard limit of the nodes, 0 for none.
    pub limit: u64,
    /// The limit has been reached: the search unwinds.
    pub stopped: bool,
}

/// What a node comes to.
#[verifier::ext_equal]
pub struct Seen {
    pub mind: Mind,
    pub score: int,
    pub line: Seq<Move>,
}

impl Mind {
    /// The bucket of a position.
    pub open spec fn slot(self, hash: u64) -> int {
        ((hash as usize) & self.mask) as int
    }

    /// The table's entry for a position.
    pub open spec fn entry(self, p: Position) -> Option<TTEntry> {
        found(self.table[self.slot(p.hash)], short_key(p.hash))
    }

    /// After an entry has been stored.
    pub open spec fn with_entry(
        self,
        p: Position,
        depth: i8,
        kind: u8,
        was_pv: bool,
        score: int,
        eval: i16,
        mv: Move,
    ) -> Mind {
        let k = self.slot(p.hash);
        let e = new_entry(p.hash, depth, kind, was_pv, score as i16, eval, mv, self.gen);
        Mind { table: self.table.update(k, stored(self.table[k], e)), ..self }
    }

    /// The number of nodes is one at which the limit is looked at, and has reached
    /// it.
    pub open spec fn runs_out(self) -> bool {
        self.nodes % 2048 == 0 && self.limit > 0 && self.nodes >= self.limit
    }

    /// After a node has been counted. Every 2048 nodes the limit is looked at.
    pub open spec fn counted(self) -> Mind {
        let s = Mind {
            nodes: if self.nodes < u64::MAX {
                (self.nodes + 1) as u64
            } else {
                self.nodes
            },
            ..self
        };
        Mind { stopped: s.stopped || s.runs_out(), ..s }
    }

    /// After a ply has been reached.
    pub open spec fn reached(self, ply: int) -> Mind {
        Mind {
            seldepth: if ply > self.seldepth {
                ply as i32
            } else {
                self.seldepth
            },
            ..self
        }
    }

    /// After a move that leads to a hash.
    pub open spec fn pushed(self, hash: u64) -> Mind {
        Mind { hashes: self.hashes.push(hash), ..self }
    }

    /// After the move has been taken back.
    pub open spec fn popped(self) -> Mind {
        Mind { hashes: self.hashes.drop_last(), ..self }
    }

    /// With a move on the stacks.
    pub open spec fn stacked(self, ply: int, mv: Move, pt: PieceType) -> Mind {
        Mind { moves: self.moves.update(ply, mv), pieces: self.pieces.update(ply, pt), ..self }
    }
}

/// The static evaluation of a position: the network's, faded by the fifty-move
/// rule, or the hand-crafted one where no network is loaded.
pub open spec fn position_value(nnue: Nnue, p: Position) -> int {
    match nnue.params {
        Some(n) => faded(
            network_value(*n, p, bucket_of_count(piece_count(p))),
            p.halfmove_clock as int,
        ),
        None => evaluation(p),
    }
}

/// A result without a line.
pub open spec fn bare(s: Mind, score: int) -> Seen {
    Seen { mind: s, score, line: Seq::empty() }
}

// ---- Quiescence ----
/// How quiescence orders the moves.
pub open spec fn quiet_order(p: Position, tt_move: Move, mv: Move) -> int {
    if mv == tt_move {
        10_000_000
    } else if mv.captures() {
        exchange_order(p, mv)
    } else {
        0
    }
}

pub open spec fn quiet_orders(p: Position, list: Seq<Move>, tt_move: Move) -> Seq<i32> {
    Seq::new(list.len(), |i: int| quiet_order(p, tt_move, list[i]) as i32)
}

/// What quiescence has found among the moves so far.
pub struct Stand {
    pub stand_pat: int,
    pub alpha: int,
    pub best: int,
    pub best_move: Move,
    pub legal: int,
}

/// Quiescence: the score of a position when only captures, or all moves out of
/// a check, are looked at.
#[verifier::opaque]
pub open spec fn quiesced(s: Mind, p: Position, alpha: int, beta: int, ply: int) -> Seen
    decreases 128 - ply, 1int, 0int,
{
    let c = s.counted();
    let s = c.reached(ply);
    let e = s.entry(p);
    let evading = evades(p, ply);
    let stand_pat = if evading {
        -30000
    } else {
        position_value(s.nnue, p)
    };
    if c.runs_out() {
        bare(c, 0)
    } else if ply >= 127 {
        bare(s, position_value(s.nnue, p))
    } else if e is Some && !evading && cuts(
        e.unwrap().flag & FLAG_TYPE_MASK,
        seen_score(e.unwrap().score as int, ply),
        alpha,
        beta,
    ) {
        bare(s, seen_score(e.unwrap().score as int, ply))
    } else if stand_pat >= beta {
        bare(s, stand_pat)
    } else {
        let tt_move = if e is Some {
            e.unwrap().best_move
        } else {
            Move(0)
        };
        let list = if evading {
            all_moves(p)
        } else {
            capture_moves(p)
        };
        let x = Stand {
            stand_pat,
            alpha: at_least(alpha, stand_pat),
            best: stand_pat,
            best_move: Move(0),
            legal: 0,
        };
        quiesced_moves(s, p, alpha, beta, ply, list, quiet_orders(p, list, tt_move), 0, x)
    }
}

/// Quiescence from the move with index `i` on.
#[verifier::opaque]
pub open spec fn quiesced_moves(
    s: Mind,
    p: Position,
    alpha: int,
    beta: int,
    ply: int,
    list: Seq<Move>,
    scores: Seq<i32>,
    i: int,
    x: Stand,
) -> Seen
    decreases 128 - ply, 0int, list.len() - i,
{
    let evading = evades(p, ply);
    if i >= list.len() || ply >= 127 {
        if evading && x.legal == 0 {
            bare(s, ply - 29000)
        } else {
            let kind = if x.alpha > alpha {
                1u8
            } else {
                3u8
            };
            let eval = if evading {
                0i16
            } else {
                (x.stand_pat as i32) as i16
            };
            bare(
                s.with_entry(
                    p,
                    0,
                    kind,
                    beta - alpha > 1,
                    kept_score(x.best, ply),
                    eval,
                    x.best_move,
                ),
                x.best,
            )
        }
    } else {
        let k = first_best(scores, i);
        let mv = list[k];
        let l = swapped(list, i, k);
        let o = swapped(scores, i, k);
        if (!evading && hopeless(p, mv, x.stand_pat, x.alpha)) || !legal(p, mv) {
            quiesced_moves(s, p, alpha, beta, ply, l, o, i + 1, x)
        } else {
            let r = quiesced(s, after(p, mv), -beta, -x.alpha, ply + 1);
            let score = -r.score;
            if r.mind.stopped {
                bare(r.mind, 0)
            } else if score >= beta {
                bare(
                    r.mind.with_entry(
                        p,
                        0,
                        2,
                        beta - alpha > 1,
                        kept_score(score, ply),
                        (x.stand_pat as i32) as i16,
                        mv,
                    ),
                    score,
                )
            } else {
                let y = Stand {
                    stand_pat: x.stand_pat,
                    alpha: at_least(x.alpha, score),
                    best: at_least(x.best, score),
                    best_move: if score > x.alpha {
                        mv
                    } else {
                        x.best_move
                    },
                    legal: x.legal + 1,
                };
                quiesced_moves(r.mind, p, alpha, beta, ply, l, o, i + 1, y)
            }
        }
    }
}

// ---- The node ----
/// The node as the table and the evaluation show it.
pub open spec fn node_at(
    s: Mind,
    p: Position,
    alpha: int,
    beta: int,
    depth: int,
    ply: int,
    is_null: bool,
    excluded: Move,
    cut_node: bool,
    is_pv: bool,
) -> Node {
    let e = s.entry(p);
    let in_check = p.in_check();
    let raw = if in_check {
        -30000
    } else {
        match e {
            Some(x) => x.eval as int,
            None => position_value(s.nnue, p),
        }
    };
    let eval = if in_check {
        -30000
    } else {
        raw + correction_of(s.corrections[correction_index(p.side, p.pawn_hash)])
    };
    Node {
        alpha: alpha as i32,
        beta: beta as i32,
        depth: depth as i32,
        ply: ply as usize,
        is_null,
        excluded,
        cut_node,
        is_pv,
        in_check,
        tt_move: match e {
            Some(x) => x.best_move,
            None => Move(0),
        },
        tt_score: match e {
            Some(x) => Some(seen_score(x.score as int, ply) as i32),
            None => None,
        },
        tt_depth: match e {
            Some(x) => x.depth as i32,
            None => (-1) as i32,
        },
        tt_flag: match e {
            Some(x) => x.flag,
            None => 0,
        },
        tt_pv: match e {
            Some(x) => (x.flag & FLAG_WAS_PV) != 0 || x.flag & FLAG_TYPE_MASK == 1,
            None => false,
        },
        raw_eval: raw as i32,
        static_eval: eval as i32,
        improving: !in_check && ply >= 2 && eval > s.evals[ply - 2],
    }
}

/// Without a move of the table, a deep node is searched one ply less.
pub open spec fn reduced(node: Node) -> Node {
    if node.tt_move.0 == 0 && node.depth >= 4 && !node.in_check {
        Node { depth: (node.depth - 1) as i32, ..node }
    } else {
        node
    }
}

/// How a node is dealt with: it is decided at once, left to quiescence, or opened
/// with a window and a depth.
pub enum Way {
    Decided(Seen),
    Quiet,
    Open { mind: Mind, alpha: int, beta: int, depth: int },
}

/// Draws by the fifty-move rule and by repetition, mates that close the window,
/// and the deepest ply decide a node; without depth it is left to quiescence.
pub open spec fn way(s: Mind, p: Position, alpha: int, beta: int, depth: int, ply: int) -> Way {
    let d = extended_depth(p.in_check(), ply, depth);
    let c = s.counted().reached(ply);
    let draw = drawn(p, s.hashes, ply);
    if d <= 0 {
        if draw {
            Way::Decided(bare(s, draw_score(p)))
        } else {
            Way::Quiet
        }
    } else if s.counted().runs_out() {
        Way::Decided(bare(s.counted(), 0))
    } else if ply >= 127 {
        Way::Decided(bare(s.counted(), position_value(s.nnue, p)))
    } else if draw {
        Way::Decided(bare(c, draw_score(p)))
    } else if mate_closes(alpha, beta, ply) {
        Way::Decided(
            bare(
                c,
                if alpha >= 29000 - ply {
                    29000 - ply
                } else {
                    ply - 29000
                },
            ),
        )
    } else {
        let w = node_window(alpha, beta, ply);
        Way::Open { mind: c, alpha: w.0, beta: w.1, depth: d }
    }
}

/// The search of a node.
#[verifier::opaque]
pub open spec fn searched(
    s: Mind,
    p: Position,
    alpha: int,
    beta: int,
    depth: int,
    ply: int,
    is_null: bool,
    excluded: Move,
    cut_node: bool,
) -> Seen
    decreases 128 - ply, exclusion_rank(excluded), 7int, 0int,
{
    match way(s, p, alpha, beta, depth, ply) {
        Way::Decided(x) => x,
        Way::Quiet => quiesced(s, p, alpha, beta, ply),
        Way::Open { mind, alpha: a, beta: b, depth: d } => opened(
            mind,
            p,
            a,
            b,
            d,
            ply,
            is_null,
            excluded,
            cut_node,
            beta - alpha > 1,
        ),
    }
}

/// The table's entry decides a node with this window: the node is not on the
/// principal variation, no move is excluded, and the entry is deep enough.
pub open spec fn entry_cuts(
    s: Mind,
    p: Position,
    alpha: int,
    beta: int,
    depth: int,
    ply: int,
    excluded: Move,
    is_pv: bool,
) -> bool {
    match s.entry(p) {
        Some(e) => !is_pv && excluded.0 == 0 && e.depth >= depth && cuts(
            e.flag & FLAG_TYPE_MASK,
            seen_score(e.score as int, ply),
            alpha,
            beta,
        ),
        None => false,
    }
}

/// The search of a node that neither a draw nor a mate decides.
#[verifier::opaque]
pub open spec fn opened(
    s: Mind,
    p: Position,
    alpha: int,
    beta: int,
    depth: int,
    ply: int,
    is_null: bool,
    excluded: Move,
    cut_node: bool,
    is_pv: bool,
) -> Seen
    decreases 128 - ply, exclusion_rank(excluded), 6int, 0int,
{
    if !(0 <= ply < 127) || entry_cuts(s, p, alpha, beta, depth, ply, excluded, is_pv) {
        bare(s, seen_score(s.entry(p).unwrap().score as int, ply))
    } else {
        let node = node_at(s, p, alpha, beta, depth, ply, is_null, excluded, cut_node, is_pv);
        let t = Mind { evals: s.evals.update(ply, node.static_eval), ..s };
        let r = if !is_pv && !node.in_check && excluded.0 == 0 {
            given_up(t, p, node)
        } else {
            (t, None)
        };
        match r.1 {
            Some(score) => bare(r.0, score),
            None => moves_searched(r.0, p, reduced(node)),
        }
    }
}

/// The side to move has more than pawns.
pub open spec fn has_officers(p: Position) -> bool {
    crate::bitboard::squares(
        p.colors@[p.side.num()] & (p.pieces@[1] | p.pieces@[2] | p.pieces@[3] | p.pieces@[4]),
    ).len() > 0
}

/// The turn is passed to see whether beta holds even then.
pub open spec fn tries_null(p: Position, node: Node) -> bool {
    !node.is_null && node.depth >= 3 && node.static_eval >= node.beta && has_officers(p)
}

/// Only captures can lift the evaluation to alpha.
pub open spec fn razored(t: Tunables, node: Node) -> bool {
    node.depth <= param(t, RAZOR_DEPTH) && node.static_eval + param(t, RAZOR_MARGIN) * node.depth
        < node.alpha
}

pub open spec fn exchange_orders(p: Position, list: Seq<Move>) -> Seq<i32> {
    Seq::new(list.len(), |i: int| exchange_order(p, list[i]) as i32)
}

/// Whether a node is given up before its moves are searched, and with which score.
#[verifier::opaque]
pub open spec fn given_up(s: Mind, p: Position, node: Node) -> (Mind, Option<int>)
    decreases 128 - node.ply, exclusion_rank(node.excluded), 5int, 0int,
{
    if far_above(
        s.tune,
        node.improving,
        node.depth as int,
        node.static_eval as int,
        node.beta as int,
    ) {
        (s, Some(node.static_eval as int))
    } else {
        let n = passed(s, p, node);
        if tries_null(p, node) && n.0.stopped {
            (n.0, Some(0))
        } else if tries_null(p, node) && n.1 >= node.beta {
            (n.0, Some(n.1))
        } else {
            let t = if tries_null(p, node) {
                n.0
            } else {
                s
            };
            let q = quiesced(t, p, node.alpha as int, node.beta as int, node.ply as int);
            if razored(t.tune, node) && q.score <= node.alpha {
                (q.mind, Some(q.score))
            } else {
                let u = if razored(t.tune, node) {
                    q.mind
                } else {
                    t
                };
                if node.depth >= param(u.tune, PROBCUT_DEPTH) && !decisive(node.beta as int) {
                    let list = capture_moves(p);
                    cut_by_captures(u, p, node, list, exchange_orders(p, list), 0)
                } else {
                    (u, None)
                }
            }
        }
    }
}

/// The score after passing the turn, in a reduced search.
#[verifier::opaque]
pub open spec fn passed(s: Mind, p: Position, node: Node) -> (Mind, int)
    decreases 128 - node.ply, exclusion_rank(node.excluded), 1int, 0int,
{
    if node.ply >= 127 {
        (s, 0)
    } else {
        let q = passed_turn(p);
        let r = null_reduction(
            s.tune,
            node.depth as int,
            node.static_eval as int,
            node.beta as int,
            node.improving,
        );
        let f = searched(
            s.stacked(node.ply as int, Move(0), PieceType::NoType).pushed(q.hash),
            q,
            -node.beta,
            -node.beta + 1,
            node.depth - r - 1,
            node.ply + 1,
            true,
            Move(0),
            !node.cut_node,
        );
        (f.mind.popped(), -f.score)
    }
}

/// The first capture, from index `i` on, that exceeds beta by a margin in a
/// shallower search.
#[verifier::opaque]
pub open spec fn cut_by_captures(
    s: Mind,
    p: Position,
    node: Node,
    list: Seq<Move>,
    scores: Seq<i32>,
    i: int,
) -> (Mind, Option<int>)
    decreases 128 - node.ply, exclusion_rank(node.excluded), 1int, list.len() - i,
{
    if i >= list.len() || node.ply >= 127 {
        (s, None)
    } else {
        let k = first_best(scores, i);
        let mv = list[k];
        let l = swapped(list, i, k);
        let o = swapped(scores, i, k);
        let goal = node.beta + param(s.tune, PROBCUT_MARGIN);
        if !see_at_least(p, mv, goal - node.static_eval) || !legal(p, mv) {
            cut_by_captures(s, p, node, l, o, i + 1)
        } else {
            let c = after(p, mv);
            let f = searched(
                s.pushed(c.hash),
                c,
                -goal,
                -goal + 1,
                node.depth - 4,
                node.ply + 1,
                false,
                Move(0),
                !node.cut_node,
            );
            if f.mind.stopped {
                (f.mind.popped(), Some(0))
            } else if -f.score >= goal {
                (f.mind.popped(), Some(-f.score))
            } else {
                cut_by_captures(f.mind.popped(), p, node, l, o, i + 1)
            }
        }
    }
}

// ---- The moves of a node ----
/// What has been found among the moves so far.
#[verifier::ext_equal]
pub struct Scan {
    pub best: int,
    pub best_move: Move,
    pub searched: int,
    pub alpha: int,
    pub line: Seq<Move>,
    pub quiets: Seq<Move>,
}

/// The piece and the square of an earlier move of the line.
pub open spec fn earlier(s: Mind, ply: int, back: int) -> (PieceType, int) {
    if ply >= back {
        (s.pieces[ply - back], s.moves[ply - back].dst())
    } else {
        (PieceType::NoType, 0)
    }
}

/// The order of the moves of a node.
pub open spec fn node_order(
    s: Mind,
    p: Position,
    node: Node,
    prev: (PieceType, int),
    mv: Move,
) -> int {
    order_of(
        p,
        mv,
        node.tt_move,
        if prev.0 != PieceType::NoType {
            s.counters[counter_index(p.side.other(), prev.0, prev.1)]
        } else {
            Move(0)
        },
        killer_score(s.killers, node.ply as int, mv),
        s.history,
        s.cont,
        s.captures,
        prev.0,
        prev.1,
    )
}

pub open spec fn node_orders(
    s: Mind,
    p: Position,
    node: Node,
    prev: (PieceType, int),
    list: Seq<Move>,
) -> Seq<i32> {
    Seq::new(list.len(), |i: int| node_order(s, p, node, prev, list[i]) as i32)
}

/// No quiet move is expected to lift the evaluation to alpha.
pub open spec fn futile(t: Tunables, node: Node) -> bool {
    !node.is_pv && !node.in_check && node.depth <= param(t, FP_DEPTH) && node.static_eval
        + node.depth * param(t, FP_MARGIN_MUL) + param(t, FP_MARGIN_ADD) <= node.alpha
}

/// A pawn goes to one of the last three ranks, without promoting.
pub open spec fn runs(p: Position, mv: Move) -> bool {
    let piece = p.mailbox@[mv.src()];
    piece != 12 && type_of(piece as int) == PieceType::Pawn && !mv.promotes() && match p.side {
        Color::White => mv.dst() / 8 >= 5,
        Color::Black => mv.dst() / 8 <= 2,
    }
}

/// The type of the piece that a move has left on its square.
pub open spec fn moved_type(c: Position, mv: Move) -> PieceType {
    if mv.promotes() {
        mv.promo_type()
    } else if c.mailbox@[mv.dst()] != 12 {
        type_of(c.mailbox@[mv.dst()] as int)
    } else {
        PieceType::NoType
    }
}

/// The search of all moves of a node.
#[verifier::opaque]
pub open spec fn moves_searched(s: Mind, p: Position, node: Node) -> Seen
    decreases 128 - node.ply, exclusion_rank(node.excluded), 4int, 0int,
{
    let prev = earlier(s, node.ply as int, 1);
    let before = earlier(s, node.ply as int, 2);
    let list = all_moves(p);
    let t = if node.ply == 0 {
        Mind { second_best: i32::MIN, root_moves: 0, ..s }
    } else {
        s
    };
    let x = Scan {
        best: -30000,
        best_move: Move(0),
        searched: 0,
        alpha: node.alpha as int,
        line: Seq::empty(),
        quiets: Seq::empty(),
    };
    tried(t, p, node, prev, before, list, node_orders(s, p, node, prev, list), 0, x)
}

/// The search of the moves from index `i` on.
#[verifier::opaque]
pub open spec fn tried(
    s: Mind,
    p: Position,
    node: Node,
    prev: (PieceType, int),
    before: (PieceType, int),
    list: Seq<Move>,
    scores: Seq<i32>,
    i: int,
    x: Scan,
) -> Seen
    decreases 128 - node.ply, exclusion_rank(node.excluded), 3int, list.len() - i,
{
    if i >= list.len() {
        finished(s, p, node, x)
    } else {
        let k = first_best(scores, i);
        match stepped(s, p, node, prev, before, list[k], scores[k] as int, x) {
            Step::On(u, y) => tried(
                u,
                p,
                node,
                prev,
                before,
                swapped(list, i, k),
                swapped(scores, i, k),
                i + 1,
                y,
            ),
            Step::Cut(u, y) => finished(u, p, node, y),
            Step::Out(f) => f,
        }
    }
}

/// What becomes of a node after one more move: the search of its moves goes on,
/// the move cuts the node, or the other moves have cut it.
pub enum Step {
    On(Mind, Scan),
    Cut(Mind, Scan),
    Out(Seen),
}

/// The move is passed over.
pub open spec fn skipped(s: Mind, p: Position, node: Node, mv: Move, hist: int, x: Scan) -> bool {
    (node.excluded.0 != 0 && mv == node.excluded) || prunes(
        s.tune,
        p,
        node,
        mv,
        hist,
        x.searched,
        x.best,
        late_count(s.tune, node.improving, node.depth as int),
        futile(s.tune, node),
    )
}

/// The move is the table's, and is tested for being the only good one.
pub open spec fn tested(s: Mind, node: Node, mv: Move) -> bool {
    mv == node.tt_move && node.excluded.0 == 0 && may_be_singular(
        s.tune,
        node.depth as int,
        node.tt_score,
        node.tt_depth as int,
        node.tt_flag,
    )
}

/// The extension of a move: as the test for singularity says, or for a pawn that
/// runs.
pub open spec fn extension_of(p: Position, mv: Move, e: i32) -> int {
    if e == 0 && runs(p, mv) {
        1
    } else {
        e as int
    }
}

/// What becomes of a node once a legal move has been searched.
pub open spec fn weighed(
    nodes_before: u64,
    p: Position,
    node: Node,
    prev: (PieceType, int),
    before: (PieceType, int),
    mv: Move,
    x: Scan,
    c: Seen,
) -> Step {
    let u = if node.ply == 0 {
        noted(c.mind, nodes_before, c.score, x)
    } else {
        c.mind
    };
    let y = scanned(x, mv, c);
    if c.score > x.best && c.score > x.alpha && c.score >= node.beta {
        Step::Cut(credited(u, p, node, mv, y.quiets, prev, before), y)
    } else {
        Step::On(u, y)
    }
}

/// What becomes of a node after a move.
#[verifier::opaque]
pub open spec fn stepped(
    s: Mind,
    p: Position,
    node: Node,
    prev: (PieceType, int),
    before: (PieceType, int),
    mv: Move,
    hist: int,
    x: Scan,
) -> Step
    decreases 128 - node.ply, exclusion_rank(node.excluded), 2int, 0int,
{
    if skipped(s, p, node, mv, hist, x) {
        Step::On(s, x)
    } else {
        let t = if tested(s, node, mv) {
            singled_out(s, p, node, mv, node.tt_score.unwrap() as int)
        } else {
            (s, Singular::Extend(0), x.line)
        };
        let y = Scan { line: t.2, ..x };
        match t.1 {
            Singular::Halted => Step::Out(Seen { mind: t.0, score: 0, line: t.2 }),
            Singular::Cut(score) => Step::Out(
                Seen { mind: t.0, score: score as int, line: t.2 },
            ),
            Singular::Extend(e) => {
                let c = played(
                    t.0,
                    p,
                    node,
                    mv,
                    extension_of(p, mv, e),
                    x.alpha,
                    x.searched + 1,
                    hist,
                );
                match c {
                    None => Step::On(t.0, y),
                    Some(f) => if f.mind.stopped {
                        Step::Out(bare(f.mind, 0))
                    } else {
                        weighed(t.0.nodes, p, node, prev, before, mv, y, f)
                    },
                }
            },
        }
    }
}

/// What has been found once a move has been searched.
pub open spec fn scanned(x: Scan, mv: Move, c: Seen) -> Scan {
    let better = c.score > x.best;
    let raised = better && c.score > x.alpha;
    Scan {
        best: if better {
            c.score
        } else {
            x.best
        },
        best_move: if better {
            mv
        } else {
            x.best_move
        },
        searched: x.searched + 1,
        alpha: if raised {
            c.score
        } else {
            x.alpha
        },
        line: if raised {
            seq![mv] + c.line
        } else {
            x.line
        },
        quiets: if quiet(mv) {
            x.quiets.push(mv)
        } else {
            x.quiets
        },
    }
}

/// What is noted of a root move: the nodes of the first, how many there are, and
/// the best score but one.
pub open spec fn noted(s: Mind, nodes_before: u64, score: int, x: Scan) -> Mind {
    Mind {
        first_nodes: if x.searched == 0 {
            (s.nodes - nodes_before) as u64
        } else {
            s.first_nodes
        },
        root_moves: if s.root_moves < u32::MAX {
            (s.root_moves + 1) as u32
        } else {
            s.root_moves
        },
        second_best: if score > x.best {
            if x.best != -30000 && x.best > s.second_best {
                x.best as i32
            } else {
                s.second_best
            }
        } else if score > s.second_best {
            score as i32
        } else {
            s.second_best
        },
        ..s
    }
}

/// The result of a node once its moves have been searched. Without a legal move
/// it is that of a mate or a stalemate, or alpha while a move is excluded.
pub open spec fn finished(s: Mind, p: Position, node: Node, x: Scan) -> Seen {
    if x.searched == 0 {
        Seen {
            mind: s,
            score: if node.excluded.0 != 0 {
                x.alpha
            } else if node.in_check {
                node.ply - 29000
            } else {
                0
            },
            line: x.line,
        }
    } else {
        Seen {
            mind: if node.excluded.0 == 0 {
                remembered(s, p, node, x.best, x.best_move, x.alpha != node.alpha)
            } else {
                s
            },
            score: x.best,
            line: x.line,
        }
    }
}

/// After the result of a node has been stored and compared with its evaluation.
pub open spec fn remembered(
    s: Mind,
    p: Position,
    node: Node,
    best: int,
    best_move: Move,
    alpha_rose: bool,
) -> Mind {
    let t = s.with_entry(
        p,
        node.depth as i8,
        if best >= node.beta {
            2u8
        } else if alpha_rose {
            1u8
        } else {
            3u8
        },
        node.is_pv || node.tt_pv,
        kept_score(best, node.ply as int),
        node.raw_eval as i16,
        best_move,
    );
    if node.in_check || decisive(best) || node.raw_eval == -30000 {
        t
    } else {
        let i = correction_index(p.side, p.pawn_hash);
        let c = corrected(t.corrections[i], best - node.raw_eval, node.depth as int);
        Mind {
            corrections: t.corrections.update(
                i,
                Correction { sum: c.0 as i64, weight: c.1 as i64 },
            ),
            ..t
        }
    }
}

/// What the search without the table's move shows: whether the move stands
/// alone, or the others cut the node as well.
#[verifier::opaque]
pub open spec fn singled_out(s: Mind, p: Position, node: Node, mv: Move, tt_score: int) -> (
    Mind,
    Singular,
    Seq<Move>,
)
    decreases 128 - node.ply, exclusion_rank(node.excluded), 1int, 0int,
{
    if node.excluded.0 != 0 || mv.0 == 0 {
        (s, Singular::Halted, Seq::empty())
    } else {
        let goal = tt_score - node.depth * param(s.tune, SE_MARGIN_MUL);
        let f = searched(
            s,
            p,
            goal - 1,
            goal,
            (node.depth - 1) / 2,
            node.ply as int,
            false,
            mv,
            node.cut_node,
        );
        (
            f.mind,
            if f.mind.stopped {
                Singular::Halted
            } else if f.score < goal {
                Singular::Extend(1)
            } else if f.score >= node.beta {
                Singular::Cut(f.score as i32)
            } else if node.cut_node {
                Singular::Extend((-1) as i32)
            } else {
                Singular::Extend(0)
            },
            f.line,
        )
    }
}

/// What the search knows in the position after a move.
pub open spec fn child_mind(s: Mind, p: Position, node: Node, mv: Move) -> Mind {
    let c = after(p, mv);
    s.pushed(c.hash).stacked(node.ply as int, mv, moved_type(c, mv))
}

/// The search of a move, if it is legal. Where it rises above alpha on the
/// principal variation, and for the first move there, the window is opened.
#[verifier::opaque]
pub open spec fn played(
    s: Mind,
    p: Position,
    node: Node,
    mv: Move,
    extension: int,
    alpha: int,
    number: int,
    hist: int,
) -> Option<Seen>
    decreases 128 - node.ply, exclusion_rank(node.excluded), 0int, 1int,
{
    if !legal(p, mv) || node.ply >= 127 {
        None
    } else {
        let c = after(p, mv);
        let depth = node.depth - 1 + extension;
        let b = scouted(child_mind(s, p, node, mv), c, node, mv, depth, alpha, number, hist);
        let f = if node.is_pv && (number == 1 || -b.score > alpha) {
            searched(
                b.mind,
                c,
                -node.beta,
                -alpha,
                depth,
                node.ply + 1,
                false,
                Move(0),
                false,
            )
        } else {
            b
        };
        Some(Seen { mind: f.mind.popped(), score: -f.score, line: f.line })
    }
}

/// The move is a late quiet one, which is searched at a reduced depth first.
pub open spec fn comes_late(node: Node, mv: Move, number: int) -> bool {
    number > 3 && node.depth >= 3 && quiet(mv) && !node.in_check
}

/// The reduced depth of a late move that leads to position `c`.
pub open spec fn late_depth(
    s: Mind,
    c: Position,
    node: Node,
    depth: int,
    alpha: int,
    number: int,
    hist: int,
) -> int {
    let x = LmrInputs {
        depth: node.depth,
        moves_searched: number as usize,
        on_pv: node.is_pv || node.tt_pv,
        improving: node.improving,
        hist_score: hist as i32,
        cut_node: node.cut_node,
        static_eval: node.static_eval,
        alpha: alpha as i32,
        gives_check: c.in_check(),
    };
    at_least(depth - reduction(s.reductions, param(s.tune, LMR_HIST_DIV), x), 1)
}

/// The search of position `c`, after a move, with a closed window: late moves at a
/// reduced depth, and at the full depth where they rise above alpha. The first
/// move of the principal variation is not searched so.
#[verifier::opaque]
pub open spec fn scouted(
    s: Mind,
    c: Position,
    node: Node,
    mv: Move,
    depth: int,
    alpha: int,
    number: int,
    hist: int,
) -> Seen
    decreases 128 - node.ply, exclusion_rank(node.excluded), 0int, 0int,
{
    let d = late_depth(s, c, node, depth, alpha, number, hist);
    if node.ply >= 127 || !comes_late(node, mv, number) && node.is_pv && number <= 1 {
        bare(s, -alpha - 1)
    } else if comes_late(node, mv, number) {
        let a = searched(
            s,
            c,
            -alpha - 1,
            -alpha,
            d,
            node.ply + 1,
            false,
            Move(0),
            !node.cut_node,
        );
        if -a.score > alpha && d < depth {
            searched(
                a.mind,
                c,
                -alpha - 1,
                -alpha,
                depth,
                node.ply + 1,
                false,
                Move(0),
                !node.cut_node,
            )
        } else {
            a
        }
    } else {
        searched(
            s,
            c,
            -alpha - 1,
            -alpha,
            depth,
            node.ply + 1,
            false,
            Move(0),
            !node.cut_node,
        )
    }
}

// ---- What a cutoff teaches ----
/// The history of quiet moves after a cutoff: the best move gains, the other
/// quiet moves that were tried lose.
pub open spec fn history_after(
    t: Seq<i32>,
    c: Color,
    bonus: int,
    quiets: Seq<Move>,
    mv: Move,
    n: int,
) -> Seq<i32>
    decreases n,
{
    if n <= 0 {
        let k = history_index(c, mv);
        t.update(k, gravity(t[k] as int, bonus) as i32)
    } else {
        let r = history_after(t, c, bonus, quiets, mv, n - 1);
        let k = history_index(c, quiets[n - 1]);
        if quiets[n - 1] == mv {
            r
        } else {
            r.update(k, gravity(r[k] as int, -bonus) as i32)
        }
    }
}

/// The place of a move in the history of answers to an earlier one.
pub open spec fn answer_index(p: Position, prev: (PieceType, int), mv: Move) -> int {
    cont_index(prev.0, prev.1, type_of(p.mailbox@[mv.src()] as int), mv.dst())
}

/// The history of answers after a cutoff.
pub open spec fn answers_after(
    t: Seq<i32>,
    p: Position,
    prev: (PieceType, int),
    bonus: int,
    quiets: Seq<Move>,
    mv: Move,
    n: int,
) -> Seq<i32>
    decreases n,
{
    if prev.0 == PieceType::NoType {
        t
    } else if n <= 0 {
        let k = answer_index(p, prev, mv);
        t.update(k, gravity(t[k] as int, bonus) as i32)
    } else {
        let r = answers_after(t, p, prev, bonus, quiets, mv, n - 1);
        let k = answer_index(p, prev, quiets[n - 1]);
        if quiets[n - 1] == mv {
            r
        } else {
            r.update(k, gravity(r[k] as int, -bonus) as i32)
        }
    }
}

/// After a move has cut a node: a quiet move becomes a killer and the answer to
/// the previous move, and gains in the histories; a capture gains in its own.
pub open spec fn credited(
    s: Mind,
    p: Position,
    node: Node,
    mv: Move,
    quiets: Seq<Move>,
    prev: (PieceType, int),
    before: (PieceType, int),
) -> Mind {
    let bonus = depth_bonus(node.depth as int, true);
    if quiet(mv) {
        quiet_credited(s, p, node, mv, quiets, prev, before)
    } else if mv.captures() {
        let k = capture_index(
            type_of(p.mailbox@[mv.src()] as int),
            mv.dst(),
            OrderingInputs::victim(p, mv),
        );
        Mind {
            captures: s.captures.update(k, gravity(s.captures[k] as int, bonus) as i32),
            ..s
        }
    } else {
        s
    }
}

/// After a quiet move has cut a node.
pub open spec fn quiet_credited(
    s: Mind,
    p: Position,
    node: Node,
    mv: Move,
    quiets: Seq<Move>,
    prev: (PieceType, int),
    before: (PieceType, int),
) -> Mind {
    let n = quiets.len() as int;
    let small = at_most(node.depth * node.depth, 400);
    let k = s.killers[node.ply as int];
    Mind {
        killers: if k.first != mv {
            s.killers.update(node.ply as int, KillerPair { first: mv, second: k.first })
        } else {
            s.killers
        },
        history: history_after(
            s.history,
            p.side,
            depth_bonus(node.depth as int, true),
            quiets,
            mv,
            n,
        ),
        counters: if prev.0 != PieceType::NoType {
            s.counters.update(counter_index(p.side.other(), prev.0, prev.1), mv)
        } else {
            s.counters
        },
        cont: answers_after(s.cont, p, prev, small, quiets, mv, n),
        cont2: answers_after(s.cont2, p, before, small, quiets, mv, n),
        ..s
    }
}

// ---- Iterative deepening ----
/// The search of the root to a depth, with a window round the previous score.
pub open spec fn aspired(s: Mind, p: Position, depth: int, prev_score: int) -> Seen {
    let delta = param(s.tune, ASP_DELTA);
    let alpha = at_least(prev_score - delta, -30000);
    let beta = at_most(prev_score + delta, 30000);
    if depth <= 4 {
        searched(s, p, -30000, 30000, depth, 0, false, Move(0), false)
    } else if alpha >= beta {
        widened(s, p, depth, -30000, 30000, delta, true)
    } else {
        widened(s, p, depth, alpha, beta, delta, false)
    }
}

/// The search of the root with a window that widens while the score falls
/// outside, and is opened fully in the end.
#[verifier::opaque]
pub open spec fn widened(
    s: Mind,
    p: Position,
    depth: int,
    alpha: int,
    beta: int,
    delta: int,
    wide: bool,
) -> Seen
    decreases
            (if wide {
                0
            } else {
                1000 - delta
            }),
{
    let f = searched(s, p, alpha, beta, depth, 0, false, Move(0), false);
    if f.mind.stopped || wide || delta < 10 || delta > 500 || alpha < f.score < beta {
        f
    } else {
        let a = if f.score <= alpha {
            at_least(f.score - delta, -30000)
        } else {
            alpha
        };
        let b = at_most(f.score + delta, 30000);
        let d = delta + delta / 2;
        if d > 500 || a >= b {
            widened(f.mind, p, depth, -30000, 30000, d, true)
        } else {
            widened(f.mind, p, depth, a, b, d, false)
        }
    }
}

/// How far an iterative search has come: what it knows, the depth of the next
/// iteration, and the result of the last one.
#[verifier::ext_equal]
pub struct Course {
    pub mind: Mind,
    pub depth: int,
    pub completed: int,
    pub best_move: Move,
    pub score: int,
    pub line: Seq<Move>,
    pub done: bool,
}

/// After one more iteration. A decisive win that is confirmed ends the search. An
/// iteration that the limit cuts short leaves the result as it was, except for the
/// first.
pub open spec fn iterated(c: Course, p: Position) -> Course {
    let f = aspired(c.mind, p, c.depth, c.score);
    let done = settled(f.score, c.depth);
    if c.depth > 1 && f.mind.stopped {
        Course { mind: f.mind, done: true, ..c }
    } else {
        whole(c, f, done)
    }
}

/// After an iteration that was not cut short.
pub open spec fn whole(c: Course, f: Seen, done: bool) -> Course {
    Course {
        mind: f.mind,
        depth: if done {
            c.depth
        } else {
            c.depth + 1
        },
        completed: c.depth,
        best_move: if f.line.len() > 0 {
            f.line[0]
        } else {
            c.best_move
        },
        score: f.score,
        line: if f.line.len() > 0 {
            f.line
        } else {
            c.line
        },
        done,
    }
}

/// No further iteration begins: the search is done or deep enough, or after the
/// first iteration the number of nodes has reached a soft limit, if there is one.
pub open spec fn ends(c: Course, max_depth: int, soft_nodes: int) -> bool {
    c.done || c.depth > max_depth || (c.depth > 1 && soft_nodes > 0 && c.mind.nodes >= soft_nodes)
}

/// The iterations up to a depth and a soft limit of the nodes.
pub open spec fn deepened(c: Course, p: Position, max_depth: int, soft_nodes: int) -> Course
    decreases
            (if c.done {
                0
            } else {
                max_depth - c.depth + 1
            }),
{
    if ends(c, max_depth, soft_nodes) {
        Course { done: true, ..c }
    } else {
        deepened(iterated(c, p), p, max_depth, soft_nodes)
    }
}

/// The base reductions by depth and move number.
pub open spec fn base_reductions(divisor: int) -> Seq<i32> {
    Seq::new(16384, |i: int| base_reduction(i / 128, i % 128, divisor) as i32)
}

/// What a search knows that has learnt nothing yet.
pub open spec fn fresh_mind(tt: SharedTT) -> Mind {
    Mind {
        nodes: 0,
        table: tt.buckets@,
        mask: tt.mask,
        gen: tt.gen,
        killers: Seq::new(
            MAX_PLY as nat,
            |i: int| KillerPair { first: Move(0), second: Move(0) },
        ),
        history: Seq::new(8192, |i: int| 0i32),
        counters: Seq::new(768, |i: int| Move(0)),
        cont: Seq::new(147456, |i: int| 0i32),
        cont2: Seq::new(147456, |i: int| 0i32),
        captures: Seq::new(2304, |i: int| 0i32),
        corrections: Seq::new(32768, |i: int| Correction { sum: 0, weight: 0 }),
        seldepth: 0,
        evals: Seq::new(MAX_PLY as nat, |i: int| 0i32),
        moves: Seq::new(MAX_PLY as nat, |i: int| Move(0)),
        pieces: Seq::new(MAX_PLY as nat, |i: int| PieceType::NoType),
        hashes: Seq::empty(),
        first_nodes: 0,
        second_best: i32::MIN,
        root_moves: 0,
        nnue: Nnue { params: None },
        tune: default_tunables(),
        reductions: base_reductions(default_value(LMR_DIVISOR as int)),
        limit: 0,
        stopped: false,
    }
}

/// What a search knows once it is cleared: counters, killers and stacks are reset,
/// the histories have aged, the table has a new generation, and only the hashes of
/// the game are left.
pub open spec fn cleared(s: Mind, game_hashes: int) -> Mind {
    Mind {
        nodes: 0,
        gen: ((s.gen + 1) % 256) as u8,
        killers: Seq::new(
            MAX_PLY as nat,
            |i: int| KillerPair { first: Move(0), second: Move(0) },
        ),
        history: halved(s.history),
        cont: halved(s.cont),
        cont2: halved(s.cont2),
        captures: halved(s.captures),
        seldepth: 0,
        evals: Seq::new(MAX_PLY as nat, |i: int| 0i32),
        moves: Seq::new(MAX_PLY as nat, |i: int| Move(0)),
        pieces: Seq::new(MAX_PLY as nat, |i: int| PieceType::NoType),
        hashes: s.hashes.take(game_hashes),
        first_nodes: 0,
        ..s
    }
}

/// What a search knows when it begins.
pub open spec fn prepared(s: Mind, game_hashes: int, limit: u64) -> Mind {
    Mind {
        limit,
        stopped: false,
        reductions: base_reductions(s.tune.values@[LMR_DIVISOR as int] as int),
        ..cleared(s, game_hashes)
    }
}

/// A search that is about to begin.
pub open spec fn begun(s: Mind, game_hashes: int, limit: u64) -> Course {
    Course {
        mind: prepared(s, game_hashes, limit),
        depth: 1,
        completed: 0,
        best_move: Move(0),
        score: -30000,
        line: Seq::empty(),
        done: false,
    }
}

/// What a search to a depth, or to a soft or a hard limit of the nodes, comes to. It
/// is a function of what the search knows, the position and the limits: whoever runs
/// it gets the same move, score, line and number of nodes.
pub open spec fn search_result(
    s: Mind,
    game_hashes: int,
    p: Position,
    max_depth: int,
    soft_nodes: int,
    limit: u64,
) -> Course {
    deepened(begun(s, game_hashes, limit), p, max_depth, soft_nodes)
}

} // verus!
