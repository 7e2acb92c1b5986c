//! What is kept: entries of the table, notes of a search, and the bytes of files.

use crate::board::{after, Position};
use crate::decide::{cuts, seen_score};
use crate::embedded::{announced_mate, EmbeddedLimits};
use crate::expbook::{entry_bytes, ExpEntry};
use crate::model::{
    child_mind, credited, earlier, node_at, noted, position_value, quiesced_moves, remembered, Mind,
    Scan, Stand,
};
use crate::nodes::{mate_closes, node_window, Node};
use crate::ordering::{
    bounded, capture_index, correction_index, correction_of, Correction, OrderingInputs,
};
use crate::records::packed;
use crate::search::{gap_of, root_value, Progress, SearchInfo};
use crate::session::{changed_by, pondered, score_words, Session};
use crate::time::TimeManager;
use crate::tt::{fresh_entries, new_entry, stored, TTBucket, TTEntry, TTable};
use crate::tune::{default_tunables, default_value, largest_value, least_value};
use crate::types::{type_of, Move, PieceType};
use crate::uci::{go_of, limited_at, GoCommand, Setting};
use vstd::prelude::*;

verus! {

// ---- The table ----
proof fn kinds_are_marked(kind: u8)
    by (bit_vector)
    requires
        kind <= 3,
    ensures
        (kind | 4) & 3 == kind,
        (kind | 0) & 3 == kind,
        (kind | 4) & 4 != 0,
        (kind | 0) & 4 == 0,
{
}

/// An entry of this generation gives way only to one of its depth or more; where both
/// entries of a bucket are deeper, nothing is stored.
pub proof fn deep_entries_stay(b: TTBucket, e: TTEntry)
    requires
        b.first.used() && b.second.used(),
        b.first.key16 != e.key16 && b.second.key16 != e.key16,
        b.first.gen == e.gen && b.second.gen == e.gen,
        e.used(),
    ensures
        b.first.depth > e.depth && b.second.depth > e.depth ==> stored(b, e) == b,
        e.depth >= b.first.depth && b.first.depth <= b.second.depth ==> stored(b, e) == (TTBucket {
            first: e,
            ..b
        }),
        e.depth >= b.second.depth && b.second.depth < b.first.depth ==> stored(b, e) == (TTBucket {
            second: e,
            ..b
        }),
{
}

/// An entry of an earlier search gives way, even a deeper one: eight plies of depth count
/// as much as one search. An empty entry is filled first.
pub proof fn old_entries_go(b: TTBucket, e: TTEntry)
    requires
        e.used(),
        b.first.key16 != e.key16 && b.second.key16 != e.key16,
    ensures
        b.first.used() && b.second.used() && b.first.gen == e.gen && b.second.gen + 1 == e.gen
            && b.second.depth - 8 < b.first.depth ==> stored(b, e) == (TTBucket { second: e, ..b }),
        b.first.used() && b.second.used() && b.second.gen == e.gen && b.first.gen + 1 == e.gen
            && b.first.depth - 8 <= b.second.depth ==> stored(b, e) == (TTBucket { first: e, ..b }),
        !b.first.used() ==> stored(b, e) == (TTBucket { first: e, ..b }),
        b.first.used() && !b.second.used() ==> stored(b, e) == (TTBucket { second: e, ..b }),
{
}

proof fn fresh_entries_counted(b: Seq<TTBucket>, n: int, gen: u8)
    requires
        0 <= n <= b.len(),
    ensures
        0 <= fresh_entries(b, n, gen) <= 2 * n,
        (forall|i: int| 0 <= i < n ==> (#[trigger] b[i]).first.gen != gen && b[i].second.gen != gen)
            ==> fresh_entries(b, n, gen) == 0,
        (forall|i: int|
            0 <= i < n ==> (#[trigger] b[i]).first.gen == gen && b[i].second.gen == gen
                && b[i].first.flag != 0 && b[i].second.flag != 0) ==> fresh_entries(b, n, gen) == 2
            * n,
    decreases n,
{
    if n > 0 {
        fresh_entries_counted(b, n - 1, gen);
    }
}

/// How full a table is: nothing without an entry of this search, and a thousand where every
/// entry is one.
pub proof fn fullness_is_per_mille(t: TTable)
    requires
        t.buckets@.len() > 0,
    ensures
        0 <= t.fullness() <= 1000,
        (forall|i: int|
            0 <= i < t.buckets@.len() ==> (#[trigger] t.buckets@[i]).first.gen != t.gen
                && t.buckets@[i].second.gen != t.gen) ==> t.fullness() == 0,
        (forall|i: int|
            0 <= i < t.buckets@.len() ==> (#[trigger] t.buckets@[i]).first.gen == t.gen
                && t.buckets@[i].second.gen == t.gen && t.buckets@[i].first.flag != 0
                && t.buckets@[i].second.flag != 0) ==> t.fullness() == 1000,
{
    let n = if t.buckets@.len() < 500 {
        t.buckets@.len() as int
    } else {
        500
    };
    fresh_entries_counted(t.buckets@, n, t.gen);
    let f = fresh_entries(t.buckets@, n, t.gen);
    assert(0 <= f * 1000 / (n * 2) <= 1000) by (nonlinear_arith)
        requires
            0 <= f <= 2 * n,
            n > 0,
    ;
    assert(f == 2 * n ==> f * 1000 / (n * 2) == 1000) by (nonlinear_arith)
        requires
            n > 0,
    ;
    assert(f == 0 ==> f * 1000 / (n * 2) == 0) by (nonlinear_arith)
        requires
            n > 0,
    ;
}

/// The window of a node leaves out only scores that no line through it can have: those of
/// mates that are nearer than the node itself.
pub proof fn windows_leave_out_nothing(alpha: int, beta: int, ply: int, score: int)
    requires
        alpha < beta,
        0 <= ply < 128,
        ply - 29000 < score < 29000 - ply,
    ensures
        ({
            let w = node_window(alpha, beta, ply);
            &&& alpha < score < beta <==> w.0 < score < w.1
            &&& score <= w.0 <==> score <= alpha
            &&& score >= w.1 <==> score >= beta
        }),
        !mate_closes(alpha, beta, ply) || score <= alpha || score >= beta,
        ply == 0 ==> !mate_closes(alpha, beta, ply),
{
}

/// The result of a node is kept with its move and depth, and so that it decides the same
/// window again: as a lower limit from beta on, as exact within the window, and as an
/// upper limit up to alpha. Its score is read back at the same ply.
pub proof fn results_decide_again(
    s: Mind,
    p: Position,
    node: Node,
    best: int,
    best_move: Move,
)
    requires
        0 <= s.slot(p.hash) < s.table.len(),
        s.entry(p) is Some,
        -29000 <= best <= 29000,
        node.ply < 127,
        node.alpha < node.beta,
        0 <= node.depth <= 127,
    ensures
        remembered(s, p, node, best, best_move, best > node.alpha).entry(p) matches Some(e)
            && seen_score(e.score as int, node.ply as int) == best && cuts(
            e.flag & 0x03,
            best,
            node.alpha as int,
            node.beta as int,
        ) && e.best_move == best_move && e.depth == node.depth && e.gen == s.gen && (e.flag & 0x03
            == 2 <==> best >= node.beta) && (e.flag & 0x03 == 3 <==> best <= node.alpha),
{
    kinds_are_marked(1);
    kinds_are_marked(2);
    kinds_are_marked(3);
    let kind = if best >= node.beta {
        2u8
    } else if best > node.alpha {
        1u8
    } else {
        3u8
    };
    let k = s.slot(p.hash);
    let e = new_entry(
        p.hash,
        node.depth as i8,
        kind,
        node.is_pv || node.tt_pv,
        crate::decide::kept_score(best, node.ply as int) as i16,
        node.raw_eval as i16,
        best_move,
        s.gen,
    );
    crate::tt::same_position_is_replaced(s.table[k], e);
    crate::decide::score_survives_table(best, node.ply as int);
}

/// The result of quiescence is kept so that it decides the same window again: as exact
/// where it rose above alpha, and as an upper limit where it did not.
pub proof fn quiet_results_decide_again(
    s: Mind,
    p: Position,
    alpha: int,
    beta: int,
    ply: int,
    list: Seq<Move>,
    scores: Seq<i32>,
    x: Stand,
)
    requires
        0 <= s.slot(p.hash) < s.table.len(),
        s.entry(p) is Some,
        -29000 <= x.best <= 29000,
        0 <= ply < 127,
        x.alpha == if x.best > alpha {
            x.best
        } else {
            alpha
        },
        x.legal > 0 || !p.in_check(),
    ensures
        quiesced_moves(s, p, alpha, beta, ply, list, scores, list.len() as int, x).mind.entry(
            p,
        ) matches Some(e) && seen_score(e.score as int, ply) == x.best && cuts(
            e.flag & 0x03,
            x.best,
            alpha,
            beta,
        ) && (e.flag & 0x03 == 1 <==> x.best > alpha) && e.depth == 0 && e.best_move == x.best_move,
{
    reveal(quiesced_moves);
    kinds_are_marked(1);
    kinds_are_marked(3);
    let k = s.slot(p.hash);
    let e = new_entry(
        p.hash,
        0,
        if x.alpha > alpha {
            1u8
        } else {
            3u8
        },
        beta - alpha > 1,
        crate::decide::kept_score(x.best, ply) as i16,
        if crate::quiet::evades(p, ply) {
            0i16
        } else {
            (x.stand_pat as i32) as i16
        },
        x.best_move,
        s.gen,
    );
    crate::tt::same_position_is_replaced(s.table[k], e);
    crate::decide::score_survives_table(x.best, ply);
}

// ---- What a node knows ----
/// What is known of a node at first: with an entry of the table its move, its score from
/// this ply on and its evaluation; without one the evaluation of the position. The
/// correction of the pawn structure is added. A side improves where it stands better than
/// two plies before.
pub proof fn nodes_know_the_table(
    s: Mind,
    p: Position,
    alpha: int,
    beta: int,
    depth: int,
    ply: int,
    is_null: bool,
    cut: bool,
    is_pv: bool,
)
    requires
        0 <= ply < 127,
        -430_000_000 <= position_value(s.nnue, p) <= 430_000_000,
        -8192 <= correction_of(s.corrections[correction_index(p.side, p.pawn_hash)]) <= 8192,
    ensures
        ({
            let n = node_at(s, p, alpha, beta, depth, ply, is_null, Move(0), cut, is_pv);
            let c = correction_of(s.corrections[correction_index(p.side, p.pawn_hash)]);
            &&& s.entry(p) is None && !p.in_check() ==> n.raw_eval == position_value(s.nnue, p)
                && n.tt_move == Move(0) && n.tt_score is None && n.tt_depth == -1
            &&& s.entry(p) matches Some(e) ==> n.tt_move == e.best_move && n.tt_score == Some(
                seen_score(e.score as int, ply) as i32,
            ) && n.tt_depth == e.depth && (!p.in_check() ==> n.raw_eval == e.eval)
            &&& !p.in_check() ==> n.static_eval == n.raw_eval + c
            &&& n.improving ==> !p.in_check() && ply >= 2 && n.static_eval > s.evals[ply - 2]
            &&& !p.in_check() && ply >= 2 && n.static_eval > s.evals[ply - 2] ==> n.improving
            &&& n.in_check == p.in_check() && n.is_pv == is_pv && n.cut_node == cut
        }),
{
}

/// The first result of a pawn structure corrects its evaluation by the difference, within
/// the largest correction.
pub proof fn evaluations_are_corrected(
    s: Mind,
    p: Position,
    node: Node,
    best: int,
    best_move: Move,
    rose: bool,
)
    requires
        s.corrections.len() == 32768,
        s.corrections[correction_index(p.side, p.pawn_hash)] == (Correction { sum: 0, weight: 0 }),
        !node.in_check,
        -28744 < best < 28744,
        -100_000 <= node.raw_eval <= 100_000,
        node.raw_eval != -30000,
        1 <= node.depth,
    ensures
        ({
            let r = remembered(s, p, node, best, best_move, rose);
            let d = best - node.raw_eval;
            correction_of(r.corrections[correction_index(p.side, p.pawn_hash)]) == if d > 8192 {
                8192
            } else if d < -8192 {
                -8192
            } else {
                d
            }
        }),
{
    crate::weighing::first_difference_corrects(best - node.raw_eval, node.depth as int);
}

/// The position after a move knows the move that led to it: the piece that made it and
/// the square it went to; and its hash is the last of the line.
pub proof fn the_last_move_is_known(s: Mind, p: Position, node: Node, mv: Move)
    requires
        s.moves.len() == 128,
        s.pieces.len() == 128,
        node.ply < 127,
        crate::board::leads_to(p, mv, after(p, mv)),
        mv.flag() != 2 && mv.flag() != 3 && mv.flag() != 5 && mv.flag() != 6 && mv.flag() != 7,
        mv.src() != mv.dst(),
        p.mailbox@[mv.src()] < 12,
    ensures
        ({
            let k = child_mind(s, p, node, mv);
            let e = earlier(k, node.ply + 1, 1);
            &&& e.1 == mv.dst()
            &&& !mv.promotes() ==> e.0 == type_of(p.mailbox@[mv.src()] as int)
            &&& mv.promotes() ==> e.0 == mv.promo_type()
            &&& k.hashes.last() == after(p, mv).hash && k.hashes.len() == s.hashes.len() + 1
            &&& node.ply >= 1 ==> earlier(k, node.ply + 1, 2) == earlier(s, node.ply as int, 1)
        }),
{
    crate::types::move_parts_roundtrip(mv);
    let q = after(p, mv);
    let u = choose|u: crate::types::UndoInfo| #[trigger] crate::board::made(p, mv, q, u);
    assert(p.mailbox@.len() == 64);
    crate::conduct::pieces_go_where_they_move(p.mailbox@, p.side, mv, 0);
}

// ---- Notes on the root ----
/// The best score but one of the root moves: after each move it is the larger of what it
/// was and of the smaller of the best score and the new one. The first move leaves it.
pub proof fn second_best_is_noted(s: Mind, nodes: u64, score: int, x: Scan)
    requires
        -29000 <= score <= 29000,
        x.best == -30000 || -29000 <= x.best <= 29000,
        s.root_moves < 1000,
    ensures
        ({
            let n = noted(s, nodes, score, x);
            let smaller = if score > x.best {
                x.best
            } else {
                score
            };
            &&& x.best == -30000 ==> n.second_best == s.second_best
            &&& x.best != -30000 ==> n.second_best == if smaller > s.second_best {
                smaller
            } else {
                s.second_best as int
            }
            &&& n.root_moves == s.root_moves + 1
            &&& gap_of(300, 100) == 200
        }),
{
}

/// A capture that cuts a node rises in the history of captures, and nothing else changes.
pub proof fn captures_are_credited(
    s: Mind,
    p: Position,
    node: Node,
    mv: Move,
    quiets: Seq<Move>,
    prev: (PieceType, int),
    before: (PieceType, int),
)
    requires
        mv.captures(),
        s.captures.len() == 2304,
        bounded(s.captures),
        1 <= node.depth <= 46_000,
        type_of(p.mailbox@[mv.src()] as int) != PieceType::NoType,
        OrderingInputs::victim(p, mv) != PieceType::NoType,
    ensures
        ({
            let k = capture_index(
                type_of(p.mailbox@[mv.src()] as int),
                mv.dst(),
                OrderingInputs::victim(p, mv),
            );
            let r = credited(s, p, node, mv, quiets, prev, before);
            &&& s.captures[k] < 16384 ==> r.captures[k] > s.captures[k]
            &&& forall|i: int|
                0 <= i < 2304 && i != k ==> #[trigger] r.captures[i] == s.captures[i]
            &&& r.history == s.history && r.killers == s.killers && r.table == s.table
        }),
{
    crate::types::move_parts_roundtrip(mv);
    let k = capture_index(
        type_of(p.mailbox@[mv.src()] as int),
        mv.dst(),
        OrderingInputs::victim(p, mv),
    );
    assert(0 <= k < 2304);
    assert(-16384 <= s.captures[k] <= 16384);
    crate::weighing::deeper_bonuses_are_larger(node.depth as int, node.depth as int);
    crate::weighing::bonuses_count(
        s.captures[k] as int,
        crate::num::depth_bonus(node.depth as int, true),
    );
}

// ---- Notes on the time ----
/// What an iteration teaches the management of the time: a best move that stays is counted
/// as steadier, another one starts anew; a score that falls makes the limits longer than
/// one that rises by as much.
pub proof fn iterations_set_the_pace(t: TimeManager, info: SearchInfo, pr: Progress)
    requires
        t.stable_count < 1000,
        t.scales(),
        pr.depth > 4,
        -30000 <= pr.best_score <= 30000,
        -30000 <= t.prev_score <= 30000,
    ensures
        ({
            let u = crate::search::noted(t, info, pr);
            &&& u.prev_score == pr.best_score && u.last_best_move == pr.best_move.0
            &&& pr.best_move.0 == t.last_best_move ==> u.stable_count == t.stable_count + 1
            &&& pr.best_move.0 != t.last_best_move ==> u.stable_count == 0 && u.stability_percent
                == 250
            &&& pr.best_score < t.prev_score ==> u.score_delta < 0 && crate::time::swing_for(
                u.score_delta as int,
            ) > 0x1_0000_0000
            &&& pr.best_score > t.prev_score ==> u.score_delta > 0 && crate::time::swing_for(
                u.score_delta as int,
            ) < 0x1_0000_0000
            &&& u.base_hard_limit_ms == t.base_hard_limit_ms && u.base_soft_limit_ms
                == t.base_soft_limit_ms
        }),
{
    reveal(crate::time::swing_for);
}

// ---- Answers ----
/// A mate is announced with its moves, for the side that mates and with the other sign for
/// the one that is mated, and nothing else is; a win of the tables is no mate.
pub proof fn mates_are_announced(n: int, score: int)
    requires
        1 <= n <= 64,
        -28872 < score < 28872,
    ensures
        announced_mate(29000 - (2 * n - 1)) == Some(n),
        announced_mate(-29000 + 2 * n) == Some(-n),
        announced_mate(score) is None,
        score_words(29000 - (2 * n - 1)) == "mate "@ + crate::text::signed_decimal(n),
        score_words(-29000 + 2 * n) == "mate "@ + crate::text::signed_decimal(-n),
        -28744 < score < 28744 ==> score_words(score) == "cp "@ + crate::text::signed_decimal(score),
        root_value(1) == -root_value(-1) && root_value(0) == 0 && root_value(1) > 28000,
{
}

/// The move to ponder on is the second of the line, and legal after the first.
pub proof fn pondering_is_legal(p: Position, line: Seq<Move>, best: Move, allowed: bool)
    ensures
        pondered(p, line, best, allowed) matches Some(m) ==> allowed && m == line[1] && line.len() >= 2
            && crate::rules::legal(crate::board::after(p, best), m),
        !allowed || line.len() < 2 ==> pondered(p, line, best, allowed) is None,
{
}

// ---- Limits ----
/// Each word of a "go" command sets the limit that it names, to the number after it, and
/// leaves the others.
pub proof fn words_set_their_limits(t: Seq<Seq<char>>, i: int, g: GoCommand, n: i64)
    requires
        0 <= i,
        i + 1 < t.len(),
        crate::text::parsed_i64(t[i + 1]) == Some(n),
    ensures
        ({
            let r = limited_at(t, i, g);
            &&& t[i] == "wtime"@ ==> r.tc.wtime == n && r.tc.btime == g.tc.btime
            &&& t[i] == "btime"@ ==> r.tc.btime == n && r.tc.wtime == g.tc.wtime
            &&& t[i] == "winc"@ ==> r.tc.winc == n && r.tc.binc == g.tc.binc
            &&& t[i] == "binc"@ ==> r.tc.binc == n && r.tc.winc == g.tc.winc
            &&& t[i] == "movetime"@ ==> r.tc.movetime == n && r.tc.wtime == g.tc.wtime
            &&& t[i] == "infinite"@ ==> r.tc.infinite && r.tc.depth == g.tc.depth
            &&& t[i] == "ponder"@ ==> r.ponder && r.tc == g.tc
            &&& t[i] == "depth"@ ==> r.tc.nodes == g.tc.nodes && (
            crate::text::parsed_i32(t[i + 1]) matches Some(d) ==> r.tc.depth == d)
            &&& t[i] == "nodes"@ ==> r.tc.depth == g.tc.depth && (crate::text::parsed_unsigned(
                t[i + 1],
                u64::MAX,
            ) matches Some(d) ==> r.tc.nodes == d)
            &&& t[i] == "movestogo"@ ==> r.tc.wtime == g.tc.wtime && (crate::text::parsed_unsigned(
                t[i + 1],
                0xffff_ffff,
            ) matches Some(d) ==> r.tc.movestogo == d)
        }),
{
    reveal_strlit("wtime");
    reveal_strlit("btime");
    reveal_strlit("winc");
    reveal_strlit("binc");
    reveal_strlit("movestogo");
    reveal_strlit("movetime");
    reveal_strlit("depth");
    reveal_strlit("nodes");
    reveal_strlit("infinite");
    reveal_strlit("ponder");
    assert("wtime"@[0] == 'w' && "btime"@[0] == 'b' && "winc"@[0] == 'w' && "binc"@[0] == 'b');
    assert("wtime"@[1] == 't' && "winc"@[1] == 'i' && "btime"@[1] == 't' && "binc"@[1] == 'i');
    assert("movestogo"@[0] == 'm' && "movetime"@[0] == 'm' && "movestogo"@.len() == 9
        && "movetime"@.len() == 8);
    assert("depth"@[0] == 'd' && "nodes"@[0] == 'n' && "infinite"@[0] == 'i' && "ponder"@[0] == 'p');
}

/// A "go" command without a limit searches to depth ten; one with a limit keeps to it.
pub proof fn bare_go_has_a_depth(t: Seq<Seq<char>>)
    ensures
        t.len() <= 1 ==> go_of(t).tc.depth == 10 && !go_of(t).tc.infinite && !go_of(t).ponder,
        go_of(t).tc.infinite || go_of(t).tc.depth != 0 || go_of(t).tc.nodes != 0
            || go_of(t).tc.movetime != 0 || go_of(t).tc.wtime != 0 || go_of(t).tc.btime != 0
            || go_of(t).ponder,
{
}

// ---- Bytes ----
proof fn two_bytes(v: nat)
    requires
        v < 65536,
    ensures
        crate::bytes::le_bytes(v, 2).len() == 2,
        crate::bytes::le_bytes(v, 2)[0] + 256 * crate::bytes::le_bytes(v, 2)[1] == v,
{
    reveal_with_fuel(crate::bytes::le_bytes, 3);
}

/// Where the fields of an entry stand in its 32 bytes, lowest byte first: the key, the
/// move, score, depth and count, source and flags, the games won and lost, and the scores
/// of the engines.
pub proof fn entries_are_laid_out(e: ExpEntry)
    ensures
        ({
            let b = entry_bytes(e);
            let at = |i: int| b[i] + 256 * b[i + 1];
            let short = |v: i16|
                if v < 0 {
                    v + 65536
                } else {
                    v as int
                };
            &&& b.len() == 32
            &&& crate::bytes::le_num(b.take(8)) == e.key
            &&& at(8) == e.packed_move
            &&& at(10) == short(e.score)
            &&& at(12) == short(e.depth)
            &&& at(14) == e.count
            &&& b[16] == e.source && b[17] == e.flags
            &&& at(18) == e.wdl_w
            &&& at(20) == e.wdl_l
            &&& at(22) == short(e.nnue_eval)
            &&& at(24) == short(e.jug_score)
            &&& at(26) == short(e.sf_score)
            &&& at(28) == short(e.clrsrc_score)
            &&& b[30] == 0 && b[31] == 0
        }),
{
    let u = |v: i16| crate::bytes::unsigned16(v as int) as nat;
    two_bytes(e.packed_move as nat);
    two_bytes(u(e.score));
    two_bytes(u(e.depth));
    two_bytes(e.count as nat);
    two_bytes(e.wdl_w as nat);
    two_bytes(e.wdl_l as nat);
    two_bytes(u(e.nnue_eval));
    two_bytes(u(e.jug_score));
    two_bytes(u(e.sf_score));
    two_bytes(u(e.clrsrc_score));
    crate::bytes::byte_limits();
    crate::bytes::bytes_roundtrip(e.key as nat, 8);
    assert(entry_bytes(e).take(8) =~= crate::bytes::le_bytes(e.key as nat, 8));
}

/// Where the parts of a record stand in its 32 bytes: the occupied squares, the pieces on
/// them, the score, the result, the squares of the kings, and the side to move.
pub proof fn records_are_laid_out(p: Position, score: int)
    requires
        -32000 <= score <= 32000,
    ensures
        ({
            let b = packed(p, score);
            &&& b.len() == 32
            &&& crate::bytes::le_num(b.take(8)) == crate::records::occupancy(p)
            &&& b[24] + 256 * b[25] == if score < 0 {
                score + 65536
            } else {
                score
            }
            &&& b[26] == 0
            &&& b[27] == p.king_square(p.side) as u8
            &&& b[28] == p.king_square(p.side.other()) as u8
            &&& b[29] == p.side.num()
        }),
{
    crate::records::side_byte(p, score);
    two_bytes(crate::bytes::unsigned16(score) as nat);
    crate::bytes::byte_limits();
    crate::bytes::bytes_roundtrip(crate::records::occupancy(p) as nat, 8);
    assert(packed(p, score).take(8) =~= crate::bytes::le_bytes(
        crate::records::occupancy(p) as nat,
        8,
    ));
}

// ---- Settings ----
/// A fixed depth and a fixed number of nodes go before those of the time control, and the
/// rest of it stays.
pub proof fn fixed_limits_go_first(l: EmbeddedLimits)
    requires
        l.depth <= 1000,
        l.tc.depth <= 1000,
    ensures
        l.depth > 0 ==> l.folded().depth == l.depth,
        l.depth <= 0 ==> l.folded().depth == l.tc.depth,
        l.nodes > 0 ==> l.folded().nodes == l.nodes,
        l.nodes == 0 ==> l.folded().nodes == l.tc.nodes,
        l.folded().wtime == l.tc.wtime && l.folded().btime == l.tc.btime && l.folded().movetime
            == l.tc.movetime && l.folded().infinite == l.tc.infinite,
{
}

/// A setting changes what it names, and leaves the rest of the session.
pub proof fn settings_change_what_they_name(a: Session, b: Session, v: bool, n: u8, d: i32)
    ensures
        changed_by(a, Setting::OwnBook(v), b) ==> b.engine.own_book == v && b.engine.best_book_move
            == a.engine.best_book_move && b.engine.info == a.engine.info && b.pos == a.pos,
        changed_by(a, Setting::BestBookMove(v), b) ==> b.engine.best_book_move == v
            && b.engine.own_book == a.engine.own_book && b.engine.info == a.engine.info,
        changed_by(a, Setting::PlayFromExp(v), b) ==> b.engine.play_from_exp == v && b.learn
            == a.learn && b.engine.own_book == a.engine.own_book,
        changed_by(a, Setting::LearnDuringPlay(v), b) ==> b.learn == v && b.engine == a.engine,
        changed_by(a, Setting::ExpMinSaveDepth(d), b) ==> b.exp_min_depth == d && b.engine
            == a.engine,
        changed_by(a, Setting::BookVariety(n), b) ==> b.engine.book_variety == n
            && b.engine.play_from_exp == a.engine.play_from_exp,
        changed_by(a, Setting::Ponder(v), b) ==> b.ponder_allowed == v && b.engine == a.engine,
        changed_by(a, Setting::Syzygy50MoveRule(v), b) ==> b.engine.info.tables.use_50move == v
            && b.engine.info.tables.probe_limit == a.engine.info.tables.probe_limit,
        changed_by(a, Setting::LongTimeNmp(v), b) ==> b.engine.info.tune.values@ =~=
            a.engine.info.tune.values@.update(
            4,
            if v {
                5i32
            } else {
                6i32
            },
        ),
        changed_by(a, Setting::Nothing, b) ==> b.engine.info == a.engine.info && b.pos == a.pos,
{
}

/// The defaults of the parameters lie within their limits.
pub proof fn defaults_lie_within_limits(i: int)
    requires
        0 <= i < 25,
    ensures
        0 <= least_value(i) <= default_value(i) <= largest_value(i),
        default_tunables().in_range(),
{
    assert forall|k: int| 0 <= k < 25 implies least_value(k)
        <= #[trigger] default_tunables().values@[k] <= largest_value(k) by {
    }
}

} // verus!
