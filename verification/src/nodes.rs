//! The nodes of the principal variation search.

use crate::board::Position;
use crate::decide::{
    contempt_draw_score, cuts, decisive, draw_score, extends_check, far_above, is_mate_score,
    is_repetition, kept_score, mate_window, narrow_by_mates, null_move_reduction, param, razors,
    reverse_futility, score_from_tt, score_to_tt, seen_score, table_cuts, table_score, tb_score,
    Window, INFINITY, MAX_DEPTH,
};
use crate::fen::fen_text;
use crate::model::{
    bare, cut_by_captures, entry_cuts, exchange_orders, given_up, moves_searched, node_at, opened,
    passed, position_value, quiesced, reduced, searched, way, Mind, Way,
};
use crate::movegen::capture_moves;
use crate::moves::search_moves;
use crate::nnue::{Accumulator, FeatureDelta};
use crate::ordering::{see_ge, MAX_PLY};
use crate::play::{
    child_acc, clocks_after, delta_of, legal_line, make_null, null_acc, try_move, unmake_null,
    NullUndo,
};
use crate::quiet::{
    all_pseudo_legal, capture_order, ep_lands, exchange_order, list_captures, pick_pseudo,
    quiescence, quiet_result, table_entry,
};
use crate::rules::{legal_moves, playable, sound_facts};
use crate::search::{
    as_score, bounded_score, count_node, drawn, evaluate_pos, halted, kept, ready, Found,
    SearchInfo,
};
use crate::tablebase::sets_up;
use crate::time::TimeManager;
use crate::tt::{SharedTT, TTEntry, FLAG_EXACT, FLAG_NONE, FLAG_TYPE_MASK, FLAG_WAS_PV};
use crate::tune::{get, PROBCUT_DEPTH, PROBCUT_MARGIN};
use crate::types::{Move, MoveList, PieceType, UndoInfo};
use vstd::prelude::*;

verus! {

// ---- Principal variation search ----
/// What is known of a node before its moves are searched.
#[derive(Clone, Copy)]
pub struct Node {
    pub alpha: i32,
    pub beta: i32,
    pub depth: i32,
    pub ply: usize,
    pub is_null: bool,
    pub excluded: Move,
    pub cut_node: bool,
    pub is_pv: bool,
    pub in_check: bool,
    pub tt_move: Move,
    pub tt_score: Option<i32>,
    pub tt_depth: i32,
    pub tt_flag: u8,
    pub tt_pv: bool,
    pub raw_eval: i32,
    pub static_eval: i32,
    pub improving: bool,
}

impl Node {
    pub open spec fn wf(&self) -> bool {
        &&& -500_000_000 <= self.alpha < self.beta <= 500_000_000
        &&& self.ply < 127
        &&& 1 <= self.depth <= MAX_DEPTH + 1 + self.ply
        &&& -440_000_000 <= self.static_eval <= 440_000_000
        &&& -430_000_000 <= self.raw_eval <= 430_000_000
        &&& self.tt_score matches Some(x) ==> -33000 <= x <= 33000
    }
}

/// A search without an excluded move ranks before one with it.
pub open spec fn exclusion_rank(excluded: Move) -> int {
    if excluded.0 == 0 {
        1
    } else {
        0
    }
}

/// The depth with the extension of a check.
pub open spec fn extended_depth(in_check: bool, ply: int, depth: int) -> int {
    if in_check && ply < depth + 16 {
        depth + 1
    } else {
        depth
    }
}

/// The mates that are still possible leave nothing of the window.
pub open spec fn mate_closes(alpha: int, beta: int, ply: int) -> bool {
    ply > 0 && (alpha >= 29000 - ply || beta <= ply - 29000)
}

/// The tablebases are not asked: at the root, in check, while a move is excluded,
/// or where the settings leave the position out.
pub open spec fn not_probed(info: SearchInfo, p: Position, ply: int, excluded: Move) -> bool {
    ply == 0 || p.in_check() || excluded.0 != 0 || !info.tables.covers(p)
}

/// The window of a node: below the root, the mates that are still possible.
pub open spec fn node_window(alpha: int, beta: int, ply: int) -> (int, int) {
    if ply == 0 {
        (alpha, beta)
    } else {
        mate_window(alpha, beta, ply)
    }
}

/// The table's entry decides a node: it is not on a principal variation, no move
/// is excluded, and the entry is deep enough.
pub open spec fn entry_decides(
    tt: SharedTT,
    p: Position,
    ply: int,
    depth: int,
    alpha: int,
    beta: int,
    excluded: Move,
) -> bool {
    let w = node_window(alpha, beta, ply);
    match table_entry(tt, p) {
        Some(e) => beta - alpha <= 1 && excluded.0 == 0 && e.depth >= depth && cuts(
            e.flag & FLAG_TYPE_MASK,
            seen_score(e.score as int, ply),
            w.0,
            w.1,
        ),
        None => false,
    }
}

/// What is known of the result of a node. Draws by the fifty-move rule and by
/// repetition have the score of a draw. A node without depth is left to
/// quiescence, and at the deepest ply the evaluation is the score. Then a window
/// that the mates already found close gives the mate's score, and a deciding
/// table entry its own. A checkmate that the table does not know has the score
/// of a mate.
pub open spec fn node_result(
    info: SearchInfo,
    acc: Option<Accumulator>,
    p: Position,
    ply: int,
    depth: int,
    alpha: int,
    beta: int,
    excluded: Move,
    f: Found,
) -> bool {
    let d = extended_depth(p.in_check(), ply, depth);
    let draw = drawn(p, info.hash_history@, ply);
    let closes = mate_closes(alpha, beta, ply);
    &&& ply < 127 && draw ==> f.score == draw_score(p) && f.line@.len() == 0
    &&& d <= 0 && !draw ==> quiet_result(info, acc, p, ply, alpha, beta, f.score as int)
    &&& d > 0 && ply == 127 ==> f.score == position_value(info.nnue, p)
    &&& d > 0 && ply < 127 && !draw && not_probed(info, p, ply, excluded) ==> {
        &&& closes ==> f.score == (if alpha >= 29000 - ply {
            29000 - ply
        } else {
            ply - 29000
        })
        &&& !closes && entry_decides(info.tt, p, ply, d, alpha, beta, excluded) ==> f.score
            == seen_score(table_entry(info.tt, p).unwrap().score as int, ply)
        &&& !closes && table_entry(info.tt, p) is None && p.in_check() && legal_moves(p).len() == 0
            && excluded.0 == 0 ==> f.score == ply - 29000
    }
}

/// The search of a node. The position is left as it was, and the line that is
/// found can be played.
#[verifier::rlimit(40)]
pub fn pvs(
    pos: &mut Position,
    info: &mut SearchInfo,
    tm: &TimeManager,
    acc: &Option<Accumulator>,
    alpha: i32,
    beta: i32,
    depth: i32,
    ply: usize,
    is_null: bool,
    excluded: Move,
    cut_node: bool,
) -> (f: Found)
    requires
        old(info).limit@ == tm.max_nodes,
        ply <= 127,
        ready(*old(pos), *old(info), *acc, ply as int),
        -500_000_000 <= alpha < beta <= 500_000_000,
        depth <= MAX_DEPTH + ply,
    ensures
        *final(pos) == *old(pos),
        kept(*old(info), *final(info)),
        bounded_score(f.score as int),
        legal_line(*old(pos), f.line@),
        !final(info).stopped ==> node_result(
            *old(info),
            *acc,
            *old(pos),
            ply as int,
            depth as int,
            alpha as int,
            beta as int,
            excluded,
            f,
        ),
        old(info).undisturbed(*final(info)) ==> f.seen(final(info).mind()) == searched(
            old(info).mind(),
            *old(pos),
            alpha as int,
            beta as int,
            depth as int,
            ply as int,
            is_null,
            excluded,
            cut_node,
        ),
    decreases 128 - ply, exclusion_rank(excluded), 7int, 0int,
{
    let ghost m = old(info).mind();
    assert(searched(
        m,
        *pos,
        alpha as int,
        beta as int,
        depth as int,
        ply as int,
        is_null,
        excluded,
        cut_node,
    ) == match way(m, *pos, alpha as int, beta as int, depth as int, ply as int) {
        Way::Decided(x) => x,
        Way::Quiet => quiesced(m, *pos, alpha as int, beta as int, ply as int),
        Way::Open { mind, alpha: a, beta: b, depth: d } => opened(
            mind,
            *pos,
            a,
            b,
            d,
            ply as int,
            is_null,
            excluded,
            cut_node,
            beta - alpha > 1,
        ),
    }) by {
        reveal(searched);
        reveal(opened);
    }
    let in_check: bool = pos.is_in_check();
    proof {
        sound_facts(*pos);
    }
    let full: i32 = if extends_check(in_check, ply as i32, depth) {
        depth + 1
    } else {
        depth
    };
    if full > 0 {
        return full_node(
            pos,
            info,
            tm,
            acc,
            alpha,
            beta,
            depth,
            full,
            ply,
            is_null,
            excluded,
            cut_node,
        );
    }
    let none: Vec<Move> = Vec::new();
    assert(none@ =~= Seq::empty());
    if is_drawn(pos, info, ply) {
        return Found { score: contempt_draw_score(pos), line: none };
    }
    Found { score: quiescence(pos, info, tm, acc, alpha, beta, ply), line: none }
}

/// The node is drawn by the fifty-move rule or, below the root, by repetition.
fn is_drawn(pos: &Position, info: &SearchInfo, ply: usize) -> (b: bool)
    ensures
        b == drawn(*pos, info.hash_history@, ply as int),
{
    pos.halfmove_clock >= 100 || (ply > 0 && is_repetition(
        &info.hash_history,
        pos.hash,
        pos.halfmove_clock,
    ))
}

/// The search of a node with depth left: `depth` is that of the caller, `full` that
/// with the extension for a check.
#[verifier::rlimit(60)]
fn full_node(
    pos: &mut Position,
    info: &mut SearchInfo,
    tm: &TimeManager,
    acc: &Option<Accumulator>,
    alpha: i32,
    beta: i32,
    depth: i32,
    full: i32,
    ply: usize,
    is_null: bool,
    excluded: Move,
    cut_node: bool,
) -> (f: Found)
    requires
        old(info).limit@ == tm.max_nodes,
        ply <= 127,
        ready(*old(pos), *old(info), *acc, ply as int),
        -500_000_000 <= alpha < beta <= 500_000_000,
        full == extended_depth(old(pos).in_check(), ply as int, depth as int),
        1 <= full <= MAX_DEPTH + 1 + ply,
    ensures
        *final(pos) == *old(pos),
        kept(*old(info), *final(info)),
        bounded_score(f.score as int),
        legal_line(*old(pos), f.line@),
        !final(info).stopped ==> node_result(
            *old(info),
            *acc,
            *old(pos),
            ply as int,
            depth as int,
            alpha as int,
            beta as int,
            excluded,
            f,
        ),
        old(info).undisturbed(*final(info)) ==> f.seen(final(info).mind()) == (match way(
            old(info).mind(),
            *old(pos),
            alpha as int,
            beta as int,
            depth as int,
            ply as int,
        ) {
            Way::Decided(x) => x,
            Way::Quiet => bare(old(info).mind(), 0),
            Way::Open { mind, alpha: a, beta: b, depth: d } => opened(
                mind,
                *old(pos),
                a,
                b,
                d,
                ply as int,
                is_null,
                excluded,
                cut_node,
                beta - alpha > 1,
            ),
        }),
    decreases 128 - ply, exclusion_rank(excluded), 6int, 1int,
{
    let ghost m = old(info).mind();
    let ghost w = way(m, *pos, alpha as int, beta as int, depth as int, ply as int);
    let is_pv: bool = beta - alpha > 1;
    let in_check: bool = pos.is_in_check();
    proof {
        sound_facts(*pos);
    }
    let none: Vec<Move> = Vec::new();
    assert(none@ =~= Seq::empty());
    if count_node(info, tm) {
        assert(old(info).undisturbed(*info) ==> w == Way::Decided(bare(info.mind(), 0)));
        return Found { score: 0, line: none };
    }
    assert(old(info).undisturbed(*info) ==> info.mind() == m.counted() && !m.counted().runs_out());
    if ply >= MAX_PLY - 1 {
        return Found { score: evaluate_pos(pos, &info.nnue, acc), line: none };
    }
    if ply as i32 > info.seldepth {
        info.seldepth = ply as i32;
    }
    if is_drawn(pos, info, ply) {
        return Found { score: contempt_draw_score(pos), line: none };
    }
    if ply > 0 && excluded.0 == 0 && !in_check {
        if let Some(score) = probe_tables(pos, info, is_pv, full, ply) {
            return Found { score, line: none };
        }
    }
    let mut a: i32 = alpha;
    let mut b: i32 = beta;
    if ply > 0 {
        match narrow_by_mates(alpha, beta, ply as i32) {
            Window::Open { alpha: x, beta: y } => {
                a = x;
                b = y;
            },
            Window::Closed(score) => {
                return Found { score, line: none };
            },
        }
    }
    assert(old(info).undisturbed(*info) ==> w == Way::Open {
        mind: info.mind(),
        alpha: a as int,
        beta: b as int,
        depth: full as int,
    });
    open_node(pos, info, tm, acc, a, b, full, ply, is_null, excluded, cut_node, is_pv)
}

/// Evaluates a node, with what the table knows of it. The evaluation is noted for its
/// ply.
fn meet_node(
    pos: &Position,
    info: &mut SearchInfo,
    acc: &Option<Accumulator>,
    entry: Option<TTEntry>,
    alpha: i32,
    beta: i32,
    depth: i32,
    ply: usize,
    is_null: bool,
    excluded: Move,
    cut_node: bool,
    is_pv: bool,
) -> (node: Node)
    requires
        ply < 127,
        ready(*pos, *old(info), *acc, ply as int),
        -500_000_000 <= alpha < beta <= 500_000_000,
        1 <= depth <= MAX_DEPTH + 1 + ply,
        entry == old(info).mind().entry(*pos),
    ensures
        node == node_at(
            old(info).mind(),
            *pos,
            alpha as int,
            beta as int,
            depth as int,
            ply as int,
            is_null,
            excluded,
            cut_node,
            is_pv,
        ),
        node.wf(),
        final(info).eval_stack@ == old(info).eval_stack@.update(ply as int, node.static_eval),
        *final(info) == (SearchInfo { eval_stack: final(info).eval_stack, ..*old(info) }),
{
    let in_check: bool = pos.is_in_check();
    proof {
        sound_facts(*pos);
    }
    let mut node: Node = Node {
        alpha,
        beta,
        depth,
        ply,
        is_null,
        excluded,
        cut_node,
        is_pv,
        in_check,
        tt_move: Move::null(),
        tt_score: None,
        tt_depth: -1,
        tt_flag: FLAG_NONE,
        tt_pv: false,
        raw_eval: -INFINITY,
        static_eval: -INFINITY,
        improving: false,
    };
    let mut known: Option<i32> = None;
    if let Some(e) = entry {
        node.tt_move = e.best_move;
        node.tt_score = Some(score_from_tt(e.score, ply as i32));
        node.tt_depth = e.depth as i32;
        node.tt_flag = e.flag;
        node.tt_pv = (e.flag & FLAG_WAS_PV) != 0 || (e.flag & FLAG_TYPE_MASK) == FLAG_EXACT;
        known = Some(e.eval as i32);
    }
    if !in_check {
        node.raw_eval = match known {
            Some(e) => e,
            None => evaluate_pos(pos, &info.nnue, acc),
        };
        node.static_eval = node.raw_eval + info.correction_history.get(pos.side, pos.pawn_hash);
    }
    info.eval_stack.set(ply, node.static_eval);
    node.improving = !in_check && ply >= 2 && node.static_eval > info.eval_stack[ply - 2];
    node
}

/// Looks the node up in the table and evaluates it, tries to give it up, and
/// searches its moves. A deciding entry gives the score.
#[verifier::rlimit(40)]
pub(crate) fn open_node(
    pos: &mut Position,
    info: &mut SearchInfo,
    tm: &TimeManager,
    acc: &Option<Accumulator>,
    alpha: i32,
    beta: i32,
    depth: i32,
    ply: usize,
    is_null: bool,
    excluded: Move,
    cut_node: bool,
    is_pv: bool,
) -> (f: Found)
    requires
        old(info).limit@ == tm.max_nodes,
        ply < 127,
        ready(*old(pos), *old(info), *acc, ply as int),
        -500_000_000 <= alpha < beta <= 500_000_000,
        1 <= depth <= MAX_DEPTH + 1 + ply,
    ensures
        *final(pos) == *old(pos),
        kept(*old(info), *final(info)),
        bounded_score(f.score as int),
        legal_line(*old(pos), f.line@),
        match table_entry(old(info).tt, *old(pos)) {
            Some(e) => !is_pv && excluded.0 == 0 && e.depth >= depth && cuts(
                e.flag & FLAG_TYPE_MASK,
                seen_score(e.score as int, ply as int),
                alpha as int,
                beta as int,
            ) ==> f.score == seen_score(e.score as int, ply as int),
            None => old(pos).in_check() && legal_moves(*old(pos)).len() == 0 && excluded.0 == 0
                ==> f.score == ply - 29000,
        },
        old(info).undisturbed(*final(info)) ==> f.seen(final(info).mind()) == opened(
            old(info).mind(),
            *old(pos),
            alpha as int,
            beta as int,
            depth as int,
            ply as int,
            is_null,
            excluded,
            cut_node,
            is_pv,
        ),
    decreases 128 - ply, exclusion_rank(excluded), 6int, 0int,
{
    let ghost m = old(info).mind();
    let ghost x = node_at(
        m,
        *pos,
        alpha as int,
        beta as int,
        depth as int,
        ply as int,
        is_null,
        excluded,
        cut_node,
        is_pv,
    );
    let ghost t = Mind { evals: m.evals.update(ply as int, x.static_eval), ..m };
    let ghost r = if !is_pv && !x.in_check && excluded.0 == 0 {
        given_up(t, *pos, x)
    } else {
        (t, None)
    };
    assert(opened(
        m,
        *pos,
        alpha as int,
        beta as int,
        depth as int,
        ply as int,
        is_null,
        excluded,
        cut_node,
        is_pv,
    ) == if entry_cuts(
        m,
        *pos,
        alpha as int,
        beta as int,
        depth as int,
        ply as int,
        excluded,
        is_pv,
    ) {
        bare(m, seen_score(m.entry(*pos).unwrap().score as int, ply as int))
    } else {
        match r.1 {
            Some(score) => bare(r.0, score),
            None => moves_searched(r.0, *pos, reduced(x)),
        }
    }) by {
        reveal(opened);
        reveal(given_up);
        reveal(moves_searched);
    }
    let in_check: bool = pos.is_in_check();
    let none: Vec<Move> = Vec::new();
    proof {
        sound_facts(*pos);
    }
    let entry: Option<TTEntry> = info.tt.probe(pos.hash);
    if let Some(e) = entry {
        let s: i32 = score_from_tt(e.score, ply as i32);
        if !is_pv && excluded.0 == 0 && e.depth as i32 >= depth && table_cuts(
            e.flag & FLAG_TYPE_MASK,
            s,
            alpha,
            beta,
        ) {
            return Found { score: s, line: none };
        }
    }
    let mut node: Node = meet_node(
        pos,
        info,
        acc,
        entry,
        alpha,
        beta,
        depth,
        ply,
        is_null,
        excluded,
        cut_node,
        is_pv,
    );
    assert(info.mind() == t);
    if !is_pv && !in_check && excluded.0 == 0 {
        if let Some(score) = prune_node(pos, info, tm, acc, &node) {
            return Found { score, line: none };
        }
    }
    if node.tt_move.0 == 0 && depth >= 4 && !in_check {
        node.depth = depth - 1;
    }
    search_moves(pos, info, tm, acc, &node)
}

/// A probe with this answer has been noted: the hit and a node are counted, and the
/// table remembers the score.
pub open spec fn probe_noted(
    a: SearchInfo,
    b: SearchInfo,
    p: Position,
    wdl: int,
    is_pv: bool,
    ply: int,
) -> bool {
    let m = a.mind();
    &&& b == (SearchInfo {
        tb_hits: b.tb_hits,
        nodes: b.nodes,
        tt: b.tt,
        stops: b.stops,
        ..a
    })
    &&& b.stops@ == a.stops@ + 1
    &&& b.tb_hits == (a.tb_hits + 1) % 0x1_0000_0000_0000_0000
    &&& b.mind() == (Mind {
        nodes: if a.nodes < u64::MAX {
            (a.nodes + 1) as u64
        } else {
            a.nodes
        },
        ..m
    }).with_entry(p, 127, FLAG_EXACT, is_pv, kept_score(table_score(wdl, ply), ply), 0, Move(0))
}

/// Takes the answer of a probe: the score that it gives, if the position is known.
pub fn note_probe(
    pos: &Position,
    info: &mut SearchInfo,
    wdl: Option<i32>,
    is_pv: bool,
    ply: usize,
) -> (r: Option<i32>)
    requires
        old(info).wf(),
        0 < ply <= 127,
    ensures
        final(info).wf(),
        wdl is None || old(info).tables.tables is Some ==> kept(*old(info), *final(info)),
        match wdl {
            Some(w) => r == Some(table_score(w as int, ply as int) as i32) && probe_noted(
                *old(info),
                *final(info),
                *pos,
                w as int,
                is_pv,
                ply as int,
            ),
            None => r is None && *final(info) == *old(info),
        },
{
    match wdl {
        Some(wdl) => {
            info.tb_hits = info.tb_hits.wrapping_add(1);
            if info.nodes < u64::MAX {
                info.nodes = info.nodes + 1;
            }
            info.stops = Ghost(info.stops@ + 1);
            let score: i32 = tb_score(wdl, ply as i32);
            info.tt.store(
                pos.hash,
                127,
                FLAG_EXACT,
                is_pv,
                score_to_tt(score, ply as i32),
                0,
                Move::null(),
            );
            Some(score)
        },
        None => None,
    }
}

/// The tablebase's score of a position, if it is known. The table remembers it. The
/// answer of the tablebases is taken as in `note_probe`.
pub(crate) fn probe_tables(
    pos: &Position,
    info: &mut SearchInfo,
    is_pv: bool,
    depth: i32,
    ply: usize,
) -> (r: Option<i32>)
    requires
        playable(*pos),
        old(info).wf(),
        1 <= depth,
        0 < ply <= 127,
    ensures
        kept(*old(info), *final(info)),
        r matches Some(s) ==> -29000 <= s <= 29000 && sets_up(fen_text(*pos)) && exists|w: int|
            -1 <= w <= 1 && s == table_score(w, ply as int) && #[trigger] probe_noted(
                *old(info),
                *final(info),
                *pos,
                w,
                is_pv,
                ply as int,
            ),
        r is None ==> *final(info) == *old(info),
        r is Some ==> final(info).stops@ == old(info).stops@ + 1,
        final(info).stopped == old(info).stopped,
        depth < old(info).tables.probe_depth ==> r is None,
        !old(info).tables.covers(*pos) || old(info).tables.tables is None ==> r is None,
{
    proof {
        sound_facts(*pos);
    }
    let least: usize = info.tables.probe_depth();
    if (depth as usize) < least {
        return None;
    }
    let wdl: Option<i32> = info.tables.probe_wdl(pos);
    note_probe(pos, info, wdl, is_pv, ply)
}

/// Gives a node up before its moves are searched: the evaluation stands far
/// above beta, passing the turn or a capture still holds beta in a shallower
/// search, or even captures cannot lift the evaluation to alpha.
#[verifier::rlimit(30)]
pub(crate) fn prune_node(
    pos: &mut Position,
    info: &mut SearchInfo,
    tm: &TimeManager,
    acc: &Option<Accumulator>,
    node: &Node,
) -> (r: Option<i32>)
    requires
        old(info).limit@ == tm.max_nodes,
        node.wf(),
        ready(*old(pos), *old(info), *acc, node.ply as int),
        !old(pos).in_check(),
        node.excluded.0 == 0,
    ensures
        *final(pos) == *old(pos),
        kept(*old(info), *final(info)),
        r matches Some(s) ==> bounded_score(s as int),
        far_above(
            old(info).tune,
            node.improving,
            node.depth as int,
            node.static_eval as int,
            node.beta as int,
        ) ==> r == Some(node.static_eval),
        old(info).undisturbed(*final(info)) ==> given_up(old(info).mind(), *old(pos), *node) == (
            final(info).mind(),
            as_score(r),
        ),
    decreases 128 - node.ply, exclusion_rank(node.excluded), 5int, 0int,
{
    proof {
        reveal(given_up);
        reveal(passed);
        reveal(cut_by_captures);
    }
    if reverse_futility(&info.tune, node.improving, node.depth, node.static_eval, node.beta) {
        return Some(node.static_eval);
    }
    if !node.is_null && node.depth >= 3 && node.static_eval >= node.beta && pos.non_pawn_material(
        pos.side,
    ) > 0 {
        let score: i32 = null_search(pos, info, tm, acc, node);
        if halted(info, tm) {
            return Some(0);
        }
        if score >= node.beta {
            return Some(score);
        }
    }
    if razors(&info.tune, node.depth, node.static_eval, node.alpha) {
        let score: i32 = quiescence(pos, info, tm, acc, node.alpha, node.beta, node.ply);
        if score <= node.alpha {
            return Some(score);
        }
    }
    if node.depth >= get(&info.tune, PROBCUT_DEPTH) && !is_mate_score(node.beta) {
        return shallow_cut(pos, info, tm, acc, node);
    }
    None
}

/// The score after passing the turn, in a reduced search.
#[verifier::rlimit(30)]
pub(crate) fn null_search(
    pos: &mut Position,
    info: &mut SearchInfo,
    tm: &TimeManager,
    acc: &Option<Accumulator>,
    node: &Node,
) -> (score: i32)
    requires
        old(info).limit@ == tm.max_nodes,
        node.wf(),
        ready(*old(pos), *old(info), *acc, node.ply as int),
        !old(pos).in_check(),
        node.static_eval >= node.beta,
    ensures
        *final(pos) == *old(pos),
        kept(*old(info), *final(info)),
        bounded_score(score as int),
        old(info).undisturbed(*final(info)) ==> passed(old(info).mind(), *old(pos), *node) == (
            final(info).mind(),
            score as int,
        ),
    decreases 128 - node.ply, exclusion_rank(node.excluded), 1int, 0int,
{
    proof {
        reveal(passed);
        reveal(searched);
    }
    let ghost q = *pos;
    let ghost history = info.hash_history@;
    let r: i32 = null_move_reduction(
        &info.tune,
        node.depth,
        node.static_eval,
        node.beta,
        node.improving,
    );
    let undo: NullUndo = make_null(pos);
    info.move_stack.set(node.ply, Move::null());
    info.piece_stack.set(node.ply, PieceType::NoType);
    let child: Option<Accumulator> = null_acc(&info.nnue, acc, Ghost(q), Ghost(*pos));
    info.hash_history.push(pos.hash);
    let f: Found = pvs(
        pos,
        info,
        tm,
        &child,
        -node.beta,
        -node.beta + 1,
        node.depth - r - 1,
        node.ply + 1,
        true,
        Move::null(),
        !node.cut_node,
    );
    unmake_null(pos, undo);
    let _ = info.hash_history.pop();
    proof {
        crate::play::null_is_undone(q);
        assert(info.hash_history@ =~= history);
    }
    -f.score
}

/// Tries the captures that promise to exceed beta by a margin, in a search that
/// is four plies shallower. A capture that holds the margin gives its score.
#[verifier::rlimit(40)]
pub(crate) fn shallow_cut(
    pos: &mut Position,
    info: &mut SearchInfo,
    tm: &TimeManager,
    acc: &Option<Accumulator>,
    node: &Node,
) -> (r: Option<i32>)
    requires
        old(info).limit@ == tm.max_nodes,
        node.wf(),
        ready(*old(pos), *old(info), *acc, node.ply as int),
        !decisive(node.beta as int),
    ensures
        *final(pos) == *old(pos),
        kept(*old(info), *final(info)),
        r matches Some(s) ==> bounded_score(s as int),
        old(info).undisturbed(*final(info)) ==> cut_by_captures(
            old(info).mind(),
            *old(pos),
            *node,
            capture_moves(*old(pos)),
            exchange_orders(*old(pos), capture_moves(*old(pos))),
            0,
        ) == (final(info).mind(), as_score(r)),
    decreases 128 - node.ply, exclusion_rank(node.excluded), 1int, 0int,
{
    let ghost q = *pos;
    let ghost m = cut_by_captures(
        old(info).mind(),
        q,
        *node,
        capture_moves(q),
        exchange_orders(q, capture_moves(q)),
        0,
    );
    let goal: i32 = node.beta + get(&info.tune, PROBCUT_MARGIN);
    let mut list: MoveList = list_captures(pos);
    let mut scores: Vec<i32> = capture_scores(pos, &list);
    let mut i: usize = 0;
    while i < list.len
        invariant
            node.wf(),
            *pos == q,
            q == *old(pos),
            ready(q, *info, *acc, node.ply as int),
            kept(*old(info), *info),
            old(info).limit@ == tm.max_nodes,
            -30_000 <= goal <= 30_000,
            goal == node.beta + param(old(info).tune, PROBCUT_MARGIN),
            list.wf(),
            i <= list@.len(),
            scores@.len() == list@.len(),
            all_pseudo_legal(q, list@),
            m == cut_by_captures(
                old(info).mind(),
                q,
                *node,
                capture_moves(q),
                exchange_orders(q, capture_moves(q)),
                0,
            ),
            old(info).undisturbed(*info) ==> m == cut_by_captures(
                info.mind(),
                q,
                *node,
                list@,
                scores@,
                i as int,
            ),
        decreases list@.len() - i,
    {
        proof {
            reveal(cut_by_captures);
            reveal(searched);
        }
        let mv: Move = pick_pseudo(&mut list, &mut scores, i, Ghost(q));
        i = i + 1;
        proof {
            ep_lands(q, mv);
        }
        if !see_ge(pos, mv, goal - node.static_eval) {
            continue;
        }
        let delta: Option<FeatureDelta> = delta_of(&info.nnue, pos, mv);
        let undo: UndoInfo = match try_move(pos, mv) {
            Some(u) => u,
            None => {
                continue;
            },
        };
        proof {
            clocks_after(q, mv, *pos, undo, 128 - node.ply);
        }
        let child: Option<Accumulator> = child_acc(
            &info.nnue,
            acc,
            &delta,
            pos,
            Ghost(q),
            Ghost(mv),
            Ghost(undo),
        );
        let ghost history = info.hash_history@;
        info.hash_history.push(pos.hash);
        let f: Found = pvs(
            pos,
            info,
            tm,
            &child,
            -goal,
            -goal + 1,
            node.depth - 4,
            node.ply + 1,
            false,
            Move::null(),
            !node.cut_node,
        );
        pos.unmake_move(mv, undo);
        let _ = info.hash_history.pop();
        assert(info.hash_history@ =~= history);
        if halted(info, tm) {
            return Some(0);
        }
        if -f.score >= goal {
            return Some(-f.score);
        }
    }
    proof {
        reveal(cut_by_captures);
    }
    None
}

/// The order of captures: the victim first, then the attacker.
pub(crate) fn capture_scores(pos: &Position, list: &MoveList) -> (scores: Vec<i32>)
    requires
        list.wf(),
    ensures
        scores@ == exchange_orders(*pos, list@),
{
    let mut scores: Vec<i32> = Vec::new();
    let mut i: usize = 0;
    while i < list.len
        invariant
            list.wf(),
            i <= list@.len(),
            scores@.len() == i,
            forall|k: int|
                0 <= k < i ==> #[trigger] scores@[k] == exchange_order(*pos, list@[k]),
        decreases list@.len() - i,
    {
        scores.push(capture_order(pos, list.moves[i]));
        i = i + 1;
    }
    scores
}

} // verus!
