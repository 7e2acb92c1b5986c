//! The search: what it remembers, and iterative deepening.

use crate::board::Position;
use crate::decide::{
    decisive, draw_score, fade, is_mate_score, is_settled, repeated, settled, INFINITY,
    MAX_DEPTH, TB_WIN_IN_MAX,
};
use crate::eval::evaluate;
use crate::fen::{fen_text, first_named};
use crate::game::named_is_member;
use crate::lmr::{base_reduction, init_lmr, LmrTable};
use crate::model::{
    aspired, base_reductions, begun, cleared, deepened, ends, fresh_mind, iterated,
    position_value, search_result, widened, Course, Mind, Seen,
};
use crate::nnue::{output_bucket_for_occupied, output_of_shown, Accumulator, Nnue};
pub use crate::nodes::pvs;
use crate::num::{at_least, at_most, clamped};
use crate::ordering::{
    CaptureHistory, ContHistory, CorrectionHistory, CounterMoves, History, Killers, MAX_PLY,
};
use crate::play::{acc_fits, fresh_acc, legal_line, pseudo_legal_is_real};
pub use crate::quiet::quiescence;
use crate::rules::{legal, legal_moves, legal_moves_are_legal, playable, sound_facts};
use crate::tablebase::{default_tablebases, piece_count, sets_up, Tablebases};
use crate::time::{effort_for, forced_for, should_stop, stability_for, TimeManager};
use crate::tt::{bucket_count_once, SharedTT};
use crate::tune::{default_value, get, Tunables, ASP_DELTA, LMR_DIVISOR};
use crate::types::{Move, PieceType};
use vstd::arithmetic::div_mod::{lemma_mod_twice, lemma_sub_mod_noop};
use vstd::prelude::*;

verus! {

/// What a search remembers and learns.
pub struct SearchInfo {
    pub nodes: u64,
    /// Nodes that searches with `silent` set have reported.
    pub helper_nodes: u64,
    pub tb_hits: u64,
    pub synced_nodes: u64,
    pub tt: SharedTT,
    pub killers: Killers,
    pub history: History,
    pub counter_moves: CounterMoves,
    pub cont_history: ContHistory,
    pub cont_history_2: ContHistory,
    pub capture_history: CaptureHistory,
    pub correction_history: CorrectionHistory,
    /// The principal variation of the last completed iteration.
    pub pv: Vec<Move>,
    pub seldepth: i32,
    pub eval_stack: Vec<i32>,
    pub move_stack: Vec<Move>,
    pub piece_stack: Vec<PieceType>,
    pub nnue: Nnue,
    /// Hashes of the game and of the line that is being searched.
    pub hash_history: Vec<u64>,
    /// How many of the hashes belong to the game.
    pub game_history_len: usize,
    /// The search generates data: no probe at the root.
    pub silent: bool,
    /// Reports are wanted.
    pub print_info: bool,
    pub root_score: i32,
    /// The deepest iteration that was completed.
    pub completed_depth: i32,
    pub best_move_nodes: u64,
    pub root_second_best: i32,
    pub root_moves_count: u32,
    pub stopped: bool,
    /// How often the clock, a signal or a tablebase has had a say in a search.
    pub stops: Ghost<nat>,
    /// How often that was when the last iteration was completed.
    pub iteration_stops: Ghost<nat>,
    /// The clock has kept the next iteration from beginning.
    pub out_of_time: Ghost<bool>,
    /// The hard limit of the nodes, 0 for none.
    pub limit: Ghost<u64>,
    pub tables: Tablebases,
    pub tune: Tunables,
    pub lmr: LmrTable,
}

/// The score and the line of a node.
pub struct Found {
    pub score: i32,
    pub line: Vec<Move>,
}

impl Found {
    /// The result together with what the search then knows.
    pub open spec fn seen(&self, m: Mind) -> Seen {
        Seen { mind: m, score: self.score as int, line: self.line@ }
    }
}

/// A score of the model.
pub open spec fn as_score(r: Option<i32>) -> Option<int> {
    match r {
        Some(x) => Some(x as int),
        None => None,
    }
}

impl SearchInfo {
    pub open spec fn wf(&self) -> bool {
        &&& self.tt.wf()
        &&& self.killers.wf()
        &&& self.history.wf()
        &&& self.counter_moves.wf()
        &&& self.cont_history.wf()
        &&& self.cont_history_2.wf()
        &&& self.capture_history.wf()
        &&& self.correction_history.wf()
        &&& self.eval_stack@.len() == MAX_PLY
        &&& self.move_stack@.len() == MAX_PLY
        &&& self.piece_stack@.len() == MAX_PLY
        &&& self.game_history_len <= self.hash_history@.len()
        &&& self.nnue.params is Some ==> self.nnue.usable()
        &&& self.tune.in_range()
        &&& self.lmr.wf()
    }

    /// What the search knows.
    pub open spec fn mind(&self) -> Mind {
        Mind {
            nodes: self.nodes,
            table: self.tt.buckets@,
            mask: self.tt.mask,
            gen: self.tt.gen,
            killers: self.killers.moves@,
            history: self.history.table@,
            counters: self.counter_moves.table@,
            cont: self.cont_history.table@,
            cont2: self.cont_history_2.table@,
            captures: self.capture_history.table@,
            corrections: self.correction_history.table@,
            seldepth: self.seldepth,
            evals: self.eval_stack@,
            moves: self.move_stack@,
            pieces: self.piece_stack@,
            hashes: self.hash_history@,
            first_nodes: self.best_move_nodes,
            second_best: self.root_second_best,
            root_moves: self.root_moves_count,
            nnue: self.nnue,
            tune: self.tune,
            reductions: self.lmr.table@,
            limit: self.limit@,
            stopped: self.stopped,
        }
    }

    /// Nothing outside has had a say in what was searched from here to `end`: no
    /// tablebase knew a position, and neither the clock nor a signal cut a search
    /// short.
    pub open spec fn undisturbed(&self, end: SearchInfo) -> bool {
        end.stops@ == self.stops@
    }

    /// A search that has learnt nothing yet.
    pub fn new(tt: SharedTT) -> (info: SearchInfo)
        requires
            tt.wf(),
        ensures
            info.wf(),
            info.tt == tt,
            info.mind() == fresh_mind(tt),
            info.lmr.holds(default_value(LMR_DIVISOR as int)),
            info.helper_nodes == 0 && info.tb_hits == 0 && info.synced_nodes == 0,
            info.game_history_len == 0,
            !info.silent,
            info.print_info,
            info.tables == default_tablebases(),
            info.pv@.len() == 0,
            info.root_score == 0,
            info.completed_depth == 0,
            info.stops@ == 0,
            info.iteration_stops@ == 0,
            !info.out_of_time@,
    {
        let tune: Tunables = Tunables::new();
        let lmr: LmrTable = init_lmr(&tune);
        let info: SearchInfo = SearchInfo {
            nodes: 0,
            helper_nodes: 0,
            tb_hits: 0,
            synced_nodes: 0,
            tt,
            killers: Killers::new(),
            history: History::new(),
            counter_moves: CounterMoves::new(),
            cont_history: ContHistory::new(),
            cont_history_2: ContHistory::new(),
            capture_history: CaptureHistory::new(),
            correction_history: CorrectionHistory::new(),
            pv: Vec::new(),
            seldepth: 0,
            eval_stack: vec![0; MAX_PLY],
            move_stack: vec![Move(0); MAX_PLY],
            piece_stack: vec![PieceType::NoType; MAX_PLY],
            nnue: Nnue::new(),
            hash_history: Vec::new(),
            game_history_len: 0,
            silent: false,
            print_info: true,
            root_score: 0,
            completed_depth: 0,
            best_move_nodes: 0,
            root_second_best: i32::MIN,
            root_moves_count: 0,
            stopped: false,
            stops: Ghost(0nat),
            iteration_stops: Ghost(0nat),
            out_of_time: Ghost(false),
            limit: Ghost(0u64),
            tables: Tablebases::new(),
            tune,
            lmr,
        };
        proof {
            reductions_of(info.lmr, default_value(LMR_DIVISOR as int));
            assert(info.mind() =~= fresh_mind(tt));
        }
        info
    }

    /// Prepares for a search: counters and killers are reset, histories age, and
    /// only the hashes of the game stay.
    pub fn clear_for_search(&mut self)
        requires
            old(self).wf(),
        ensures
            final(self).wf(),
            final(self).mind() == cleared(old(self).mind(), old(self).game_history_len as int),
            final(self).pv@.len() == 0,
            *final(self) == (SearchInfo {
                nodes: 0,
                synced_nodes: 0,
                helper_nodes: if old(self).silent {
                    old(self).helper_nodes
                } else {
                    0
                },
                tb_hits: if old(self).silent {
                    old(self).tb_hits
                } else {
                    0
                },
                tt: final(self).tt,
                killers: final(self).killers,
                history: final(self).history,
                cont_history: final(self).cont_history,
                cont_history_2: final(self).cont_history_2,
                capture_history: final(self).capture_history,
                pv: final(self).pv,
                seldepth: 0,
                eval_stack: final(self).eval_stack,
                move_stack: final(self).move_stack,
                piece_stack: final(self).piece_stack,
                hash_history: final(self).hash_history,
                completed_depth: 0,
                best_move_nodes: 0,
                ..*old(self)
            }),
    {
        self.nodes = 0;
        self.synced_nodes = 0;
        if !self.silent {
            self.helper_nodes = 0;
            self.tb_hits = 0;
        }
        self.killers.clear();
        self.seldepth = 0;
        self.history.age();
        self.cont_history.age();
        self.cont_history_2.age();
        self.capture_history.age();
        self.best_move_nodes = 0;
        self.completed_depth = 0;
        self.tt.new_generation();
        self.hash_history.truncate(self.game_history_len);
        self.pv = Vec::new();
        self.eval_stack = vec![0; MAX_PLY];
        self.move_stack = vec![Move(0); MAX_PLY];
        self.piece_stack = vec![PieceType::NoType; MAX_PLY];
        assert(self.mind() =~= cleared(old(self).mind(), old(self).game_history_len as int));
    }
}

/// A table of reductions holds the base reductions.
proof fn reductions_of(lmr: LmrTable, divisor: int)
    requires
        lmr.wf(),
        lmr.holds(divisor),
    ensures
        lmr.table@ == base_reductions(divisor),
{
    assert forall|i: int| 0 <= i < 16384 implies #[trigger] lmr.table@[i] == base_reductions(
        divisor,
    )[i] by {
        assert(lmr.table@[(i / 128) * 128 + i % 128] == base_reduction(i / 128, i % 128, divisor));
    }
    assert(lmr.table@ =~= base_reductions(divisor));
}

// ---- What the search keeps ----
/// What part of a search leaves as it is: the settings, the network, the limit, the
/// hashes and the reported line. Nodes are only added, and a stop is not taken back.
pub open spec fn kept(a: SearchInfo, b: SearchInfo) -> bool {
    &&& b.wf()
    &&& b.hash_history@ == a.hash_history@
    &&& b.game_history_len == a.game_history_len
    &&& b.nnue == a.nnue
    &&& b.tables == a.tables
    &&& b.tune == a.tune
    &&& b.lmr == a.lmr
    &&& b.silent == a.silent
    &&& b.print_info == a.print_info
    &&& b.pv == a.pv
    &&& b.completed_depth == a.completed_depth
    &&& b.nodes >= a.nodes
    &&& a.stopped ==> b.stopped
    &&& b.stops@ >= a.stops@
    &&& b.iteration_stops == a.iteration_stops
    &&& b.out_of_time == a.out_of_time
    &&& b.limit == a.limit
    &&& ran_out(a, b)
    &&& shows_stops(a, b)
    &&& same_reports(a, b)
}

/// The score of the root is left to the iterations, only a tablebase adds hits, and
/// nodes are reported as far as a search with `silent` set has counted them.
pub open spec fn same_reports(a: SearchInfo, b: SearchInfo) -> bool {
    &&& b.root_score == a.root_score
    &&& same_counts(a, b)
}

/// Only a tablebase adds hits, and nodes are reported as far as a search with `silent`
/// set has counted them.
pub open spec fn same_counts(a: SearchInfo, b: SearchInfo) -> bool {
    &&& b.stops@ == a.stops@ ==> b.tb_hits == a.tb_hits
    &&& !a.silent ==> b.helper_nodes == a.helper_nodes && b.synced_nodes == a.synced_nodes
    &&& a.synced_nodes <= a.nodes ==> b.synced_nodes <= b.nodes && unsynced(b) == unsynced(a)
}

/// What a search has reported before it began to count its nodes.
pub open spec fn unsynced(i: SearchInfo) -> int {
    (i.helper_nodes - i.synced_nodes) % 0x1_0000_0000_0000_0000
}

/// Where something outside has had a say in between, it shows: the search is stopped,
/// has tablebases, or has been let run past its limit of the nodes, as a search on
/// the opponent's clock is.
pub open spec fn shows_stops(a: SearchInfo, b: SearchInfo) -> bool {
    b.stops@ != a.stops@ ==> b.stopped || b.tables.tables is Some || 0 < b.limit@ <= b.nodes
}

/// A stop in between that neither the clock nor a signal caused is due to the limit
/// of the nodes, which has been reached.
pub open spec fn ran_out(a: SearchInfo, b: SearchInfo) -> bool {
    b.stopped && !a.stopped && b.stops@ == a.stops@ ==> 0 < b.limit@ <= b.nodes
}

/// A search at this ply can begin.
pub open spec fn ready(p: Position, info: SearchInfo, acc: Option<Accumulator>, ply: int) -> bool {
    &&& playable(p)
    &&& p.clock_room(128 - ply)
    &&& info.wf()
    &&& acc_fits(info.nnue, acc, p)
}

/// The score lies within the bounds of all scores.
pub open spec fn bounded_score(s: int) -> bool {
    -500_000_000 <= s <= 500_000_000
}

/// The position is drawn by the fifty-move rule or, below the root, by repetition.
pub open spec fn drawn(p: Position, history: Seq<u64>, ply: int) -> bool {
    p.halfmove_clock >= 100 || (ply > 0 && repeated(history, p.hash, p.halfmove_clock as int))
}

/// The output bucket of a number of pieces.
pub open spec fn bucket_of_count(n: int) -> int {
    if n < 2 {
        0
    } else {
        (n - 2) / 4
    }
}

pub fn evaluate_pos(pos: &Position, nnue: &Nnue, acc: &Option<Accumulator>) -> (v: i32)
    requires
        pos.wf_boards(),
        acc_fits(*nnue, *acc, *pos),
    ensures
        v == position_value(*nnue, *pos),
        -430_000_000 <= v <= 430_000_000,
{
    proof {
        if nnue.params is Some {
            output_of_shown(nnue.net(), acc.unwrap(), *pos, bucket_of_count(piece_count(*pos)));
        }
    }
    match acc {
        Some(a) => {
            let b: usize = output_bucket_for_occupied(
                crate::bitboard::popcount(pos.occupancy()),
            );
            fade(nnue.evaluate(a, pos.side, b), pos.halfmove_clock)
        },
        None => evaluate(pos),
    }
}

/// Counts a node. Every 2048 nodes the limits are looked at.
pub(crate) fn count_node(info: &mut SearchInfo, tm: &TimeManager) -> (stop: bool)
    requires
        old(info).wf(),
        old(info).limit@ == tm.max_nodes,
    ensures
        kept(*old(info), *final(info)),
        stop ==> final(info).stopped,
        !stop ==> final(info).stopped == old(info).stopped,
        final(info).tt == old(info).tt,
        final(info).stops@ == old(info).stops@ ==> final(info).mind() == old(
            info,
        ).mind().counted() && stop == old(info).mind().counted().runs_out(),
        old(info).nodes < u64::MAX ==> final(info).nodes == old(info).nodes + 1,
{
    if info.nodes < u64::MAX {
        info.nodes = info.nodes + 1;
    }
    if info.nodes % 2048 == 0 {
        if info.silent {
            if info.nodes >= info.synced_nodes {
                let more: u64 = info.nodes - info.synced_nodes;
                proof {
                    let m = 0x1_0000_0000_0000_0000int;
                    let h = info.helper_nodes as int;
                    lemma_sub_mod_noop(h + more, info.nodes as int, m);
                    lemma_sub_mod_noop((h + more) % m, info.nodes as int, m);
                    lemma_mod_twice(h + more, m);
                }
                info.helper_nodes = info.helper_nodes.wrapping_add(more);
            }
            info.synced_nodes = info.nodes;
        }
        let ends: bool = tm.should_stop_hard(info.nodes);
        info.stops =
        Ghost(
            if ends == info.mind().runs_out() {
                info.stops@
            } else {
                info.stops@ + 1
            },
        );
        if ends {
            info.stopped = true;
            return true;
        }
    }
    false
}

/// The search must unwind: it has stopped, or is told to and stops.
pub(crate) fn halted(info: &mut SearchInfo, tm: &TimeManager) -> (b: bool)
    ensures
        *final(info) == (SearchInfo { stopped: b, stops: final(info).stops, ..*old(info) }),
        final(info).stops@ == old(info).stops@ + if b && !old(info).stopped {
            1int
        } else {
            0
        },
        old(info).stopped ==> b,
{
    if !info.stopped && should_stop(&tm.signals) {
        info.stopped = true;
        info.stops = Ghost((info.stops@ + 1) as nat);
    }
    info.stopped
}

// ---- Iterative deepening ----
/// Searches the root with a window round the previous score. The window widens
/// while the score falls outside, and is opened fully in the end.
#[verifier::rlimit(40)]
pub fn aspiration_search(
    pos: &mut Position,
    info: &mut SearchInfo,
    tm: &TimeManager,
    acc: &Option<Accumulator>,
    depth: i32,
    prev_score: i32,
) -> (f: Found)
    requires
        ready(*old(pos), *old(info), *acc, 0),
        old(info).limit@ == tm.max_nodes,
        1 <= depth <= MAX_DEPTH,
        bounded_score(prev_score as int),
    ensures
        *final(pos) == *old(pos),
        kept(*old(info), *final(info)),
        bounded_score(f.score as int),
        legal_line(*old(pos), f.line@),
        old(pos).halfmove_clock >= 100 && depth <= 4 && !final(info).stopped ==> f.score
            == draw_score(*old(pos)),
        old(info).undisturbed(*final(info)) ==> f.seen(final(info).mind()) == aspired(
            old(info).mind(),
            *old(pos),
            depth as int,
            prev_score as int,
        ),
{
    let ghost m = aspired(old(info).mind(), *pos, depth as int, prev_score as int);
    let null: Move = Move::null();
    if depth <= 4 {
        return pvs(pos, info, tm, acc, -INFINITY, INFINITY, depth, 0, false, null, false);
    }
    let mut delta: i32 = get(&info.tune, ASP_DELTA);
    let mut alpha: i32 = if prev_score - delta > -INFINITY {
        prev_score - delta
    } else {
        -INFINITY
    };
    let mut beta: i32 = if prev_score + delta < INFINITY {
        prev_score + delta
    } else {
        INFINITY
    };
    let mut wide: bool = false;
    if alpha >= beta {
        alpha = -INFINITY;
        beta = INFINITY;
        wide = true;
    }
    loop
        invariant
            *pos == *old(pos),
            ready(*pos, *info, *acc, 0),
            kept(*old(info), *info),
            info.limit@ == tm.max_nodes,
            5 <= depth <= MAX_DEPTH,
            -500_000_000 <= alpha < beta <= 500_000_000,
            10 <= delta,
            !wide ==> delta <= 500,
            null == Move(0),
            m == aspired(old(info).mind(), *pos, depth as int, prev_score as int),
            old(info).undisturbed(*info) ==> m == widened(
                info.mind(),
                *pos,
                depth as int,
                alpha as int,
                beta as int,
                delta as int,
                wide,
            ),
        decreases
                (if wide {
                    0int
                } else {
                    1000 - delta
                }),
    {
        proof {
            reveal(widened);
        }
        let f: Found = pvs(pos, info, tm, acc, alpha, beta, depth, 0, false, null, false);
        if halted(info, tm) || wide {
            return f;
        }
        let score: i32 = f.score;
        if score <= alpha {
            alpha = if score - delta > -INFINITY {
                score - delta
            } else {
                -INFINITY
            };
            beta = if score + delta < INFINITY {
                score + delta
            } else {
                INFINITY
            };
        } else if score >= beta {
            beta = if score + delta < INFINITY {
                score + delta
            } else {
                INFINITY
            };
        } else {
            return f;
        }
        delta = delta + delta / 2;
        if delta > 500 || alpha >= beta {
            alpha = -INFINITY;
            beta = INFINITY;
            wide = true;
        }
    }
}

/// How far a search has come.
pub struct Progress {
    pub depth: i32,
    pub best_move: Move,
    pub best_score: i32,
    pub done: bool,
    pub acc: Option<Accumulator>,
}

impl Progress {
    /// How far the search has come, with what it knows.
    pub open spec fn course(&self, info: SearchInfo) -> Course {
        Course {
            mind: info.mind(),
            depth: self.depth as int,
            completed: info.completed_depth as int,
            best_move: self.best_move,
            score: self.best_score as int,
            line: info.pv@,
            done: self.done,
        }
    }

    /// The progress belongs to a search of this position: the line that is
    /// reported can be played, and begins with the best move.
    pub open spec fn wf(&self, p: Position, info: SearchInfo) -> bool {
        &&& playable(p)
        &&& p.clock_room(128)
        &&& info.wf()
        &&& acc_fits(info.nnue, self.acc, p)
        &&& 1 <= self.depth
        &&& bounded_score(self.best_score as int)
        &&& legal_line(p, info.pv@)
        &&& self.best_move.0 != 0 ==> info.pv@.len() > 0 && info.pv@[0] == self.best_move
        &&& self.best_move.0 == 0 ==> info.pv@.len() == 0
    }
}

/// The settings and the game's hashes stay the same.
pub open spec fn same_setup(a: SearchInfo, b: SearchInfo) -> bool {
    &&& b.nnue == a.nnue
    &&& b.tables == a.tables
    &&& b.tune == a.tune
    &&& b.silent == a.silent
    &&& b.print_info == a.print_info
    &&& b.game_history_len == a.game_history_len
}

/// What a root probe comes to: the move that it names, if that is legal, and the
/// result.
pub open spec fn probe_taken(p: Position, probe: Option<(Seq<char>, i32)>) -> Option<(Move, i32)> {
    match probe {
        Some(x) => match first_named(legal_moves(p), x.0) {
            Some(mv) => Some((mv, x.1)),
            None => None,
        },
        None => None,
    }
}

/// Takes the answer of a root probe.
pub fn take_probe(pos: &Position, probe: Option<(String, i32)>) -> (r: Option<(Move, i32)>)
    requires
        playable(*pos),
        pos.clock_room(1),
    ensures
        r == probe_taken(
            *pos,
            match probe {
                Some(x) => Some((x.0@, x.1)),
                None => None,
            },
        ),
        r matches Some(m) ==> legal(*pos, m.0) && m.0.0 != 0,
{
    match probe {
        Some(x) => match pos.parse_uci_move(x.0.as_str()) {
            Some(mv) => {
                proof {
                    sound_facts(*pos);
                    named_is_member(legal_moves(*pos), x.0@);
                    legal_moves_are_legal(*pos, mv);
                    pseudo_legal_is_real(*pos, mv);
                }
                Some((mv, x.1))
            },
            None => None,
        },
        None => None,
    }
}

/// The move of a root probe, if it can be played. The answer of the tables is
/// taken as in `take_probe`.
pub(crate) fn probed_move(pos: &Position, info: &SearchInfo) -> (r: Option<(Move, i32)>)
    requires
        playable(*pos),
        pos.clock_room(1),
    ensures
        r matches Some(m) ==> legal(*pos, m.0) && m.0.0 != 0 && -1 <= m.1 <= 1 && sets_up(
            fen_text(*pos),
        ),
        !info.tables.covers(*pos) || info.tables.tables is None ==> r is None,
{
    proof {
        sound_facts(*pos);
    }
    take_probe(pos, info.tables.probe_root(pos))
}

/// The score of a position that a tablebase decides at the root.
pub open spec fn root_value(wdl: int) -> int {
    if wdl == 1 {
        28744
    } else if wdl == -1 {
        -28744
    } else {
        0
    }
}

/// Notes the move and the result of a root probe: the hit is counted, and the move
/// is the line.
pub fn note_root_probe(info: &mut SearchInfo, mv: Move, wdl: i32) -> (score: i32)
    ensures
        score == root_value(wdl as int),
        final(info).root_score == score,
        final(info).pv@ == seq![mv],
        final(info).tb_hits == (old(info).tb_hits + 1) % 0x1_0000_0000_0000_0000,
        final(info).stops@ == old(info).stops@ + 1,
        *final(info) == (SearchInfo {
            root_score: final(info).root_score,
            pv: final(info).pv,
            tb_hits: final(info).tb_hits,
            stops: final(info).stops,
            ..*old(info)
        }),
{
    let score: i32 = if wdl == 1 {
        TB_WIN_IN_MAX
    } else if wdl == -1 {
        -TB_WIN_IN_MAX
    } else {
        0
    };
    info.tb_hits = info.tb_hits.wrapping_add(1);
    info.stops = Ghost(info.stops@ + 1);
    let mut line: Vec<Move> = Vec::new();
    line.push(mv);
    assert(line@ =~= seq![mv]);
    info.pv = line;
    info.root_score = score;
    score
}

/// Begins a search. A position of the tablebases is decided at once, unless the
/// search generates data.
#[verifier::rlimit(30)]
pub fn begin_search(pos: &Position, info: &mut SearchInfo, tm: &TimeManager) -> (pr: Progress)
    requires
        playable(*pos),
        pos.clock_room(128),
        old(info).wf(),
    ensures
        pr.wf(*pos, *final(info)),
        pr.depth == 1,
        same_setup(*old(info), *final(info)),
        final(info).hash_history@ == old(info).hash_history@.take(
            old(info).game_history_len as int,
        ),
        !final(info).stopped,
        final(info).stops@ == old(info).stops@ + (if pr.done {
            1int
        } else {
            0
        }),
        final(info).iteration_stops@ == old(info).stops@,
        !final(info).out_of_time@,
        final(info).limit@ == tm.max_nodes,
        final(info).completed_depth == 0,
        final(info).lmr.holds(old(info).tune.values@[LMR_DIVISOR as int] as int),
        old(info).silent || !old(info).tables.covers(*pos) || old(info).tables.tables is None
            ==> !pr.done && final(info).nodes == 0,
        pr.done ==> pr.best_move.0 != 0 && final(info).root_score == pr.best_score && (
        pr.best_score == 28744 || pr.best_score == -28744 || pr.best_score == 0),
        !pr.done ==> pr.best_move.0 == 0 && pr.best_score == -30000,
        !pr.done ==> pr.course(*final(info)) == begun(
            old(info).mind(),
            old(info).game_history_len as int,
            tm.max_nodes,
        ),
        shows_stops(*old(info), *final(info)),
        final(info).synced_nodes == 0,
        final(info).helper_nodes == (if old(info).silent {
            old(info).helper_nodes
        } else {
            0
        }),
        !pr.done ==> final(info).root_score == old(info).root_score && final(info).tb_hits == (
        if old(info).silent {
            old(info).tb_hits
        } else {
            0
        }),
        pr.done ==> legal(*pos, pr.best_move) && final(info).pv@ == seq![pr.best_move],
{
    info.lmr = init_lmr(&info.tune);
    proof {
        reductions_of(info.lmr, info.tune.values@[LMR_DIVISOR as int] as int);
    }
    info.clear_for_search();
    info.stopped = false;
    info.iteration_stops = Ghost(info.stops@);
    info.out_of_time = Ghost(false);
    info.limit = Ghost(tm.max_nodes);
    let acc: Option<Accumulator> = fresh_acc(&info.nnue, pos);
    if !info.silent {
        if let Some(m) = probed_move(pos, info) {
            proof {
                reveal_with_fuel(legal_line, 2);
                assert(seq![m.0].drop_first() =~= Seq::empty());
            }
            let score: i32 = note_root_probe(info, m.0, m.1);
            return Progress { depth: 1, best_move: m.0, best_score: score, done: true, acc };
        }
    }
    assert(info.pv@ =~= Seq::empty());
    Progress { depth: 1, best_move: Move::null(), best_score: -INFINITY, done: false, acc }
}

/// The gap between the best root score and the next one.
pub(crate) fn root_gap(best: i32, second: i32) -> (g: i32)
    ensures
        g == gap_of(best as int, second),
{
    if second == i32::MIN {
        return i32::MAX;
    }
    let g: i64 = best as i64 - second as i64;
    if g > 2147483647 {
        i32::MAX
    } else if g < -2147483648 {
        i32::MIN
    } else {
        g as i32
    }
}

/// By how much the best root score stands out.
pub open spec fn gap_of(best: int, second: i32) -> int {
    if second == i32::MIN {
        i32::MAX as int
    } else {
        clamped(best - second, i32::MIN as int, i32::MAX as int)
    }
}

/// The time management after a completed iteration: its score and its move are noted,
/// and where a budget is kept, the factors for the score, the steadiness of the move,
/// the effort that it took and how far it stands out set the limits.
pub open spec fn noted(t: TimeManager, info: SearchInfo, pr: Progress) -> TimeManager {
    let stable = if pr.best_move.0 == t.last_best_move {
        at_most(t.stable_count + 1, u32::MAX as int)
    } else {
        0
    };
    let u = TimeManager {
        prev_score: pr.best_score,
        score_delta: if pr.depth > 4 && t.scales() {
            clamped(pr.best_score - t.prev_score, -100, 100) as i32
        } else {
            t.score_delta
        },
        stable_count: stable as u32,
        last_best_move: pr.best_move.0,
        stability_percent: stability_for(stable) as u32,
        node_percent: if info.best_move_nodes > 0 && info.nodes > 0 && t.scales() {
            effort_for(info.best_move_nodes as int, info.nodes as int) as u32
        } else {
            t.node_percent
        },
        forced_percent: if !decisive(pr.best_score as int) && t.scales() {
            forced_for(
                info.root_moves_count as int,
                gap_of(pr.best_score as int, info.root_second_best),
            ) as u32
        } else {
            t.forced_percent
        },
        ..t
    };
    if t.scales() {
        TimeManager {
            hard_limit_ms: u.scaled_hard() as i64,
            soft_limit_ms: u.scaled_soft() as i64,
            ..u
        }
    } else {
        u
    }
}

/// Notes a completed iteration for the time management.
pub(crate) fn note_iteration(tm: &mut TimeManager, info: &SearchInfo, pr: &Progress)
    requires
        old(tm).wf(),
        bounded_score(pr.best_score as int),
    ensures
        final(tm).wf(),
        *final(tm) == noted(*old(tm), *info, *pr),
        final(tm).scales() == old(tm).scales(),
        final(tm).untimed() == old(tm).untimed(),
        final(tm).follows(),
{
    tm.update_score(pr.best_score, pr.depth);
    tm.update_best_move(pr.best_move.0);
    if info.best_move_nodes > 0 && info.nodes > 0 {
        tm.update_node_fraction(info.best_move_nodes, info.nodes);
    }
    if !is_mate_score(pr.best_score) {
        tm.update_forced(info.root_moves_count, root_gap(pr.best_score, info.root_second_best));
    }
}

/// The result is still that of the same iteration.
pub open spec fn same_result(a: Progress, i: SearchInfo, b: Progress, j: SearchInfo) -> bool {
    &&& b.best_move == a.best_move
    &&& b.best_score == a.best_score
    &&& j.pv == i.pv
    &&& j.completed_depth == i.completed_depth
    &&& j.iteration_stops == i.iteration_stops
}

/// Runs the next iteration, unless the search is done, deep enough, out of time
/// or stopped. An iteration that is cut short leaves the result as it was,
/// except for the first. The search is done when a decisive win is confirmed.
#[verifier::rlimit(40)]
pub fn run_iteration(
    pos: &mut Position,
    info: &mut SearchInfo,
    tm: &mut TimeManager,
    pr: &mut Progress,
) -> (more: bool)
    requires
        old(pr).wf(*old(pos), *old(info)),
        old(tm).wf(),
        old(info).limit@ == old(tm).max_nodes,
        old(tm).max_depth <= MAX_DEPTH,
    ensures
        *final(pos) == *old(pos),
        final(pr).wf(*old(pos), *final(info)),
        same_setup(*old(info), *final(info)),
        final(info).hash_history@ == old(info).hash_history@,
        final(tm).wf(),
        final(tm).max_depth == old(tm).max_depth,
        final(tm).scales() == old(tm).scales(),
        !old(tm).scales() ==> final(tm).same_limits(*old(tm)),
        more ==> final(tm).follows(),
        old(pr).done || old(pr).depth > old(tm).max_depth ==> !more,
        more ==> final(pr).depth == old(pr).depth + 1 && final(info).completed_depth
            == old(pr).depth && !final(pr).done && !settled(
            final(pr).best_score as int,
            old(pr).depth as int,
        ),
        !more ==> final(pr).done && final(pr).depth == old(pr).depth,
        final(info).completed_depth == old(info).completed_depth || (
        final(info).completed_depth == old(pr).depth && old(pr).depth <= old(tm).max_depth),
        old(pr).done ==> *final(pr) == *old(pr) && *final(info) == *old(info),
        !old(pr).done && !more ==> final(info).root_score == final(pr).best_score,
        final(tm).untimed() == old(tm).untimed(),
        final(tm).soft_nodes == old(tm).soft_nodes,
        final(tm).max_nodes == old(tm).max_nodes,
        final(info).limit == old(info).limit,
        old(info).stopped ==> final(info).stopped,
        final(info).stops@ >= old(info).stops@,
        final(info).nodes >= old(info).nodes,
        ran_out(*old(info), *final(info)),
        shows_stops(*old(info), *final(info)),
        same_counts(*old(info), *final(info)),
        more ==> final(info).root_score == old(info).root_score,
        final(info).lmr == old(info).lmr,
        old(info).undisturbed(*final(info)) && !old(pr).done ==> ({
            let c = old(pr).course(*old(info));
            let d = final(pr).course(*final(info));
            let e = Course { done: true, ..c };
            if ends(c, old(tm).max_depth as int, old(tm).soft_nodes as int) {
                d == e
            } else if old(tm).untimed() || c.depth == 1 {
                d == iterated(c, *old(pos))
            } else {
                d == e || d == iterated(c, *old(pos))
            }
        }),
        same_result(*old(pr), *old(info), *final(pr), *final(info)) && *final(tm) == *old(tm) || (
        final(info).completed_depth == old(pr).depth && final(info).iteration_stops
            == final(info).stops && !old(pr).done && old(pr).depth <= old(tm).max_depth
            && *final(tm) == noted(
            *old(tm),
            *final(info),
            Progress { depth: old(pr).depth, ..*final(pr) },
        )),
        !old(pr).done && !more && old(pr).depth == old(info).completed_depth + 1 ==> ended_settled(
            *final(info),
            old(tm).max_depth as int,
            old(tm).soft_nodes as int,
        ),
        final(info).out_of_time@ ==> old(info).out_of_time@ || !old(tm).untimed(),
        more ==> final(info).out_of_time == old(info).out_of_time,
        !old(pr).done && old(pr).depth == 1 <= old(tm).max_depth
            ==> final(info).completed_depth == 1,
{
    if pr.done {
        return false;
    }
    let depth: i32 = pr.depth;
    if depth > tm.max_depth() || (depth > 1 && tm.should_stop_soft(info.nodes)) {
        info.root_score = pr.best_score;
        pr.done = true;
        return false;
    }
    if depth > 1 && !tm.can_start_iteration() {
        info.out_of_time = Ghost(true);
        info.root_score = pr.best_score;
        pr.done = true;
        return false;
    }
    let f: Found = aspiration_search(pos, info, tm, &pr.acc, depth, pr.best_score);
    if depth > 1 && halted(info, tm) {
        info.root_score = pr.best_score;
        pr.done = true;
        return false;
    }
    pr.best_score = f.score;
    info.completed_depth = depth;
    info.iteration_stops = Ghost(info.stops@);
    if f.line.len() > 0 {
        pr.best_move = f.line[0];
        proof {
            sound_facts(*pos);
            pseudo_legal_is_real(*pos, f.line@[0]);
        }
        info.pv = f.line;
    }
    note_iteration(tm, info, pr);
    if is_settled(pr.best_score, depth) {
        info.root_score = pr.best_score;
        pr.done = true;
        return false;
    }
    pr.depth = depth + 1;
    true
}

/// The search has come to this: the move, the score, the line, the depth, and
/// what it then knows, the number of nodes among it.
pub open spec fn gives(info: SearchInfo, best: Move, c: Course) -> bool {
    &&& best == c.best_move
    &&& info.root_score == c.score
    &&& info.pv@ == c.line
    &&& info.completed_depth == c.completed
    &&& info.mind() == c.mind
}

/// A search that nothing outside has cut short has come to what the iterations up to
/// the last completed one give. Where the hard limit of the nodes ended it, that
/// can have been in the iteration that followed.
pub open spec fn comes_to(
    info: SearchInfo,
    best: Move,
    s: Mind,
    game_hashes: int,
    p: Position,
    soft_nodes: int,
    limit: u64,
) -> bool {
    let d = info.completed_depth as int;
    ||| gives(info, best, search_result(s, game_hashes, p, d, soft_nodes, limit))
    ||| info.stopped && gives(
        info,
        best,
        search_result(s, game_hashes, p, d + 1, soft_nodes, limit),
    )
}

/// The move, the score and the line are those of the last completed iteration.
pub open spec fn keeps_last(
    info: SearchInfo,
    best: Move,
    s: Mind,
    game_hashes: int,
    p: Position,
    soft_nodes: int,
    limit: u64,
) -> bool {
    let c = search_result(s, game_hashes, p, info.completed_depth as int, soft_nodes, limit);
    &&& best == c.best_move
    &&& info.root_score == c.score
    &&& info.pv@ == c.line
    &&& info.completed_depth == c.completed
}

/// The course is where the iterations up to the last completed one, or to the one
/// that the limit of the nodes cut short, lead from `b`.
pub open spec fn reached(c: Course, b: Course, p: Position, soft_nodes: int) -> bool {
    ||| c == deepened(b, p, c.completed, soft_nodes)
    ||| c.mind.stopped && c == deepened(b, p, c.completed + 1, soft_nodes)
}

/// One more iteration, or the end of the search, keeps a course on its way.
proof fn step_reached(b: Course, c: Course, d: Course, p: Position, max_depth: int, soft: int)
    requires
        !c.done,
        c.depth == c.completed + 1,
        forall|k: int|
            k >= c.completed ==> #[trigger] deepened(b, p, k, soft) == deepened(c, p, k, soft),
        d == (Course { done: true, ..c }) || !ends(c, max_depth, soft) && d == iterated(c, p),
    ensures
        !d.done ==> forall|k: int|
            k >= d.completed ==> #[trigger] deepened(b, p, k, soft) == deepened(d, p, k, soft),
        d.done ==> reached(d, b, p, soft),
        d.completed == c.depth ==> {
            let r = deepened(b, p, d.completed, soft);
            d.best_move == r.best_move && d.score == r.score && d.line == r.line && d.completed
                == r.completed
        },
{
    if d == (Course { done: true, ..c }) {
        assert(deepened(b, p, c.completed, soft) == deepened(c, p, c.completed, soft));
    } else {
        assert forall|k: int| k >= c.depth implies #[trigger] deepened(b, p, k, soft) == deepened(
            d,
            p,
            k,
            soft,
        ) by {
            assert(deepened(c, p, k, soft) == deepened(d, p, k, soft));
        }
        assert(deepened(b, p, c.depth, soft) == deepened(d, p, c.depth, soft));
    }
}

/// A search that has completed an iteration, and that neither a stop, the clock, its
/// depth nor a limit of the nodes has ended, has found a decisive win and has searched
/// deep enough to see it: a mate that is `n` plies away is accepted only after an
/// iteration of at least that depth.
pub open spec fn ended_settled(info: SearchInfo, max_depth: int, soft_nodes: int) -> bool {
    !info.stopped && !info.out_of_time@ && 1 <= info.completed_depth < max_depth && !(soft_nodes > 0
        && info.nodes >= soft_nodes) ==> settled(
        info.root_score as int,
        info.completed_depth as int,
    )
}

/// A tablebase has decided the position before anything was searched.
pub open spec fn decided_at_root(a: SearchInfo, b: SearchInfo, p: Position, best: Move) -> bool {
    &&& !a.silent && a.tables.tables is Some && a.tables.covers(p)
    &&& b.stops@ == a.stops@ + 1
    &&& best.0 != 0 && legal(p, best) && b.pv@ == seq![best]
    &&& b.root_score == 28744 || b.root_score == -28744 || b.root_score == 0
    &&& b.completed_depth == 0
}

/// Searches a position until a limit is reached, and gives the best move, or the
/// null move where none was found. An iteration that the clock, a signal or the
/// limit of the nodes cuts short leaves the result of the one before, except for the
/// first.
pub fn search(pos: &mut Position, info: &mut SearchInfo, tm: &mut TimeManager) -> (best: Move)
    requires
        playable(*old(pos)),
        old(pos).clock_room(128),
        old(info).wf(),
        old(tm).wf(),
        old(tm).max_depth <= MAX_DEPTH,
    ensures
        *final(pos) == *old(pos),
        final(info).wf(),
        same_setup(*old(info), *final(info)),
        final(info).hash_history@ == old(info).hash_history@.take(
            old(info).game_history_len as int,
        ),
        final(tm).wf(),
        best.0 != 0 ==> legal(*old(pos), best),
        legal_line(*old(pos), final(info).pv@),
        best.0 != 0 ==> final(info).pv@.len() > 0 && final(info).pv@[0] == best,
        best.0 == 0 ==> final(info).pv@.len() == 0,
        bounded_score(final(info).root_score as int),
        final(info).completed_depth <= at_least(old(tm).max_depth as int, 0),
        final(info).stops@ >= old(info).stops@,
        shows_stops(*old(info), *final(info)),
        final(info).stopped && final(info).stops@ == old(info).stops@ ==> 0 < old(tm).max_nodes
            <= final(info).nodes,
        old(info).undisturbed(*final(info)) && old(tm).untimed() ==> gives(
            *final(info),
            best,
            search_result(
                old(info).mind(),
                old(info).game_history_len as int,
                *old(pos),
                old(tm).max_depth as int,
                old(tm).soft_nodes as int,
                old(tm).max_nodes,
            ),
        ),
        old(info).undisturbed(*final(info)) ==> comes_to(
            *final(info),
            best,
            old(info).mind(),
            old(info).game_history_len as int,
            *old(pos),
            old(tm).soft_nodes as int,
            old(tm).max_nodes,
        ),
        final(info).iteration_stops == old(info).stops && final(info).completed_depth >= 1
            ==> keeps_last(
            *final(info),
            best,
            old(info).mind(),
            old(info).game_history_len as int,
            *old(pos),
            old(tm).soft_nodes as int,
            old(tm).max_nodes,
        ),
        old(tm).max_depth >= 1 ==> final(info).completed_depth >= 1 || decided_at_root(
            *old(info),
            *final(info),
            *old(pos),
            best,
        ),
        old(tm).max_depth < 1 ==> final(info).completed_depth == 0,
        ended_settled(*final(info), old(tm).max_depth as int, old(tm).soft_nodes as int),
        final(info).out_of_time@ ==> !old(tm).untimed(),
        final(tm).same_bounds(*old(tm)),
        old(info).undisturbed(*final(info)) ==> final(info).tb_hits == (if old(info).silent {
            old(info).tb_hits
        } else {
            0
        }),
        unsynced(*final(info)) == (if old(info).silent {
            old(info).helper_nodes as int
        } else {
            0
        }),
        !old(info).silent ==> final(info).helper_nodes == 0,
{
    let ghost c = search_result(
        old(info).mind(),
        old(info).game_history_len as int,
        *old(pos),
        old(tm).max_depth as int,
        old(tm).soft_nodes as int,
        old(tm).max_nodes,
    );
    let ghost b = begun(old(info).mind(), old(info).game_history_len as int, old(tm).max_nodes);
    let mut pr: Progress = begin_search(pos, info, tm);
    let mut more: bool = true;
    while more
        invariant
            *pos == *old(pos),
            pr.wf(*pos, *info),
            same_setup(*old(info), *info),
            info.hash_history@ == old(info).hash_history@.take(old(info).game_history_len as int),
            tm.wf(),
            tm.max_depth == old(tm).max_depth,
            tm.max_depth <= MAX_DEPTH,
            info.completed_depth <= at_least(tm.max_depth as int, 0),
            more ==> pr.depth <= at_least(tm.max_depth as int, 0) + 1,
            pr.done ==> info.root_score == pr.best_score,
            tm.untimed() == old(tm).untimed(),
            tm.soft_nodes == old(tm).soft_nodes,
            info.tables == old(info).tables,
            info.stops@ >= old(info).stops@,
            shows_stops(*old(info), *info),
            info.limit@ == tm.max_nodes,
            tm.max_nodes == old(tm).max_nodes,
            info.stopped && info.stops@ == old(info).stops@ ==> 0 < tm.max_nodes <= info.nodes,
            c == search_result(
                old(info).mind(),
                old(info).game_history_len as int,
                *old(pos),
                old(tm).max_depth as int,
                old(tm).soft_nodes as int,
                old(tm).max_nodes,
            ),
            old(info).undisturbed(*info) && tm.untimed() ==> c == deepened(
                pr.course(*info),
                *pos,
                tm.max_depth as int,
                tm.soft_nodes as int,
            ),
            !more ==> pr.done,
            b == begun(old(info).mind(), old(info).game_history_len as int, old(tm).max_nodes),
            !pr.done ==> pr.depth == info.completed_depth + 1,
            old(info).undisturbed(*info) && !pr.done ==> forall|d: int|
                d >= info.completed_depth ==> #[trigger] deepened(
                    b,
                    *pos,
                    d,
                    tm.soft_nodes as int,
                ) == deepened(pr.course(*info), *pos, d, tm.soft_nodes as int),
            old(info).undisturbed(*info) && pr.done ==> reached(
                pr.course(*info),
                b,
                *pos,
                tm.soft_nodes as int,
            ),
            info.iteration_stops == old(info).stops && info.completed_depth >= 1 ==> {
                let r = deepened(b, *pos, info.completed_depth as int, tm.soft_nodes as int);
                pr.best_move == r.best_move && pr.best_score == r.score && info.pv@ == r.line
                    && info.completed_depth == r.completed
            },
            pr.done && tm.max_depth >= 1 && info.completed_depth < 1 ==> decided_at_root(
                *old(info),
                *info,
                *pos,
                pr.best_move,
            ),
            info.completed_depth >= 0,
            pr.done ==> ended_settled(*info, tm.max_depth as int, tm.soft_nodes as int),
            info.out_of_time@ ==> !tm.untimed(),
            tm.same_bounds(*old(tm)),
            old(info).undisturbed(*info) ==> info.tb_hits == (if old(info).silent {
                old(info).tb_hits
            } else {
                0
            }),
            info.synced_nodes <= info.nodes,
            unsynced(*info) == (if old(info).silent {
                old(info).helper_nodes as int
            } else {
                0
            }),
            !old(info).silent ==> info.helper_nodes == 0,
            tm.max_depth < 1 ==> info.completed_depth == 0,
        decreases
                (if more {
                    1int
                } else {
                    0
                }),
                MAX_DEPTH + 2 - pr.depth,
    {
        let ghost before = *info;
        let ghost at = pr;
        more = run_iteration(pos, info, tm, &mut pr);
        proof {
            if !at.done && old(info).undisturbed(*info) {
                step_reached(
                    b,
                    at.course(before),
                    pr.course(*info),
                    *pos,
                    tm.max_depth as int,
                    tm.soft_nodes as int,
                );
            }
        }
    }
    pr.best_move
}

// ---- What ends a search ----
proof fn ends_settled(c: Course, p: Position, max_depth: int, soft_nodes: int)
    requires
        !c.done,
        c.depth == c.completed + 1,
    ensures
        ({
            let r = deepened(c, p, max_depth, soft_nodes);
            !r.mind.stopped && r.completed < max_depth && !(soft_nodes > 0 && r.mind.nodes
                >= soft_nodes) ==> settled(r.score, r.completed)
        }),
    decreases max_depth - c.depth + 1,
{
    if !ends(c, max_depth, soft_nodes) {
        let d = iterated(c, p);
        if !d.done {
            ends_settled(d, p, max_depth, soft_nodes);
        }
    }
}

/// A search that neither its depth nor a limit of the nodes has ended has found a
/// decisive win, and has searched deep enough to see it: a mate that is `n` plies
/// away is accepted only after an iteration of at least that depth.
pub proof fn accepted_mate_is_searched(
    s: Mind,
    game_hashes: int,
    p: Position,
    max_depth: int,
    soft_nodes: int,
    limit: u64,
)
    ensures
        ({
            let r = search_result(s, game_hashes, p, max_depth, soft_nodes, limit);
            !r.mind.stopped && r.completed < max_depth && !(soft_nodes > 0 && r.mind.nodes
                >= soft_nodes) ==> settled(r.score, r.completed) && r.score >= 28744 && r.completed
                >= 29000 - r.score
        }),
{
    ends_settled(begun(s, game_hashes, limit), p, max_depth, soft_nodes);
}

/// Searches that have learnt nothing know the same, if their tables have the same size.
pub proof fn fresh_minds_are_alike(mb: int, a: SharedTT, b: SharedTT)
    requires
        a.empty_of(mb),
        b.empty_of(mb),
    ensures
        fresh_mind(a) == fresh_mind(b),
{
    bucket_count_once(mb, a.buckets@.len() as int, b.buckets@.len() as int);
    assert(a.buckets@ =~= b.buckets@);
}

} // verus!
