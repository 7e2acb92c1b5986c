//! Self-play games that give entries of an experience book, and walks through a book.

use crate::board::{after, Position};
use crate::book::{
    at_point, decode_poly_move, decoded, decoded_is_legal, drawn_of, encode_poly_move, poly_code,
    poly_hash, polyglot_hash, total_weight, Candidate,
};
use crate::datagen::{
    ask, asked, calm, count_seen, game_limits, judged, players, same_player, times_seen, Players,
    Tally, HARD_NODE_LIMIT, MAX_GAME_MOVES,
};
use crate::decide::MINIMUM_MATE_SCORE;
use crate::eval::{evaluate, evaluation};
use crate::expbook::{best_offer, ExpBook, ExpEntry, EXP_SCORE_NONE};
use crate::fen::fen_text;
use crate::game::{is_start, start_once};
use crate::movegen::generate_legal;
use crate::num::{clamped, mag, mag_i32};
use crate::play::{clocks_after, try_move};
use crate::rng::{drawn, stepped, Rng};
use crate::rules::{legal, legal_moves, legal_moves_are_legal, playable, sound_facts};
use crate::search::{bounded_score, SearchInfo};
use crate::text::{same_chars, texts};
use crate::time::TimeControl;
use crate::types::{chars_of, Color, Move, MoveList, UndoInfo};
use vstd::prelude::*;

verus! {

/// The first ply that is not recorded.
pub const RECORD_PLIES: u32 = 18;

/// The variety with which the book is asked for diversity.
pub const DIVERSITY_VARIETY: u8 = 2;

/// The nodes of a search that only scores a move.
pub const MINI_SEARCH_NODES: u64 = 10_000;

/// How far below the best move an exploring move may be.
pub const EXPLORE_HCE_MARGIN: i32 = 120;

/// The largest score after exploring from which a game is played on.
pub const SEED_VERIFY_LIMIT: i32 = 1000;

// ---- Entries ----
/// A move of a game whose result is not known yet.
#[derive(Clone, Copy, PartialEq, Eq, Structural, Debug)]
pub struct PendingEntry {
    pub key: u64,
    pub packed_move: u16,
    pub clrsrc_score: i16,
    pub depth: i16,
    pub mate: bool,
    pub mover_is_white: bool,
}

/// A move, with the score and the depth of the search that judged it.
pub open spec fn noted(p: Position, mv: Move, score: int, depth: int) -> PendingEntry {
    PendingEntry {
        key: poly_hash(p),
        packed_move: poly_code(mv) as u16,
        clrsrc_score: clamped(score, -32000, 32000) as i16,
        depth: clamped(depth, 0, 32767) as i16,
        mate: mag(score) >= 28872,
        mover_is_white: p.side == Color::White,
    }
}

/// The entry of a move once the result is known, which is 2 for a win of White,
/// 1 for a draw and 0 for a loss.
pub open spec fn finished(p: PendingEntry, result: u8) -> ExpEntry {
    let won = result == 2 && p.mover_is_white || result == 0 && !p.mover_is_white;
    let lost = result == 2 && !p.mover_is_white || result == 0 && p.mover_is_white;
    ExpEntry {
        key: p.key,
        packed_move: p.packed_move,
        score: p.clrsrc_score,
        depth: p.depth,
        count: 1,
        source: 0x28,
        flags: if p.mate {
            0x11
        } else {
            0x01
        },
        wdl_w: if won {
            1
        } else {
            0
        },
        wdl_l: if lost {
            1
        } else {
            0
        },
        nnue_eval: EXP_SCORE_NONE,
        jug_score: EXP_SCORE_NONE,
        sf_score: EXP_SCORE_NONE,
        clrsrc_score: p.clrsrc_score,
    }
}

fn note_move(pos: &Position, mv: Move, score: i32, depth: i32) -> (p: PendingEntry)
    requires
        pos.ep_square <= 64,
        score > i32::MIN,
    ensures
        p == noted(*pos, mv, score as int, depth as int),
{
    let s: i16 = if score < -32000 {
        -32000
    } else if score > 32000 {
        32000
    } else {
        score as i16
    };
    let d: i16 = if depth < 0 {
        0
    } else if depth > 32767 {
        32767
    } else {
        depth as i16
    };
    PendingEntry {
        key: polyglot_hash(pos),
        packed_move: encode_poly_move(mv),
        clrsrc_score: s,
        depth: d,
        mate: mag_i32(score) >= MINIMUM_MATE_SCORE,
        mover_is_white: pos.side == Color::White,
    }
}

/// The entry of a move once the result is known.
pub fn fill_result(p: &PendingEntry, result: u8) -> (e: ExpEntry)
    ensures
        e == finished(*p, result),
{
    let won: bool = (result == 2 && p.mover_is_white) || (result == 0 && !p.mover_is_white);
    let lost: bool = (result == 2 && !p.mover_is_white) || (result == 0 && p.mover_is_white);
    ExpEntry {
        key: p.key,
        packed_move: p.packed_move,
        score: p.clrsrc_score,
        depth: p.depth,
        count: 1,
        source: 0x28,
        flags: if p.mate {
            0x11
        } else {
            0x01
        },
        wdl_w: if won {
            1
        } else {
            0
        },
        wdl_l: if lost {
            1
        } else {
            0
        },
        nnue_eval: EXP_SCORE_NONE,
        jug_score: EXP_SCORE_NONE,
        sf_score: EXP_SCORE_NONE,
        clrsrc_score: p.clrsrc_score,
    }
}

/// The move was made in a position of a game.
pub open spec fn entry_of_play(p: PendingEntry) -> bool {
    exists|q: Position, mv: Move, score: int, depth: int|
        playable(q) && legal(q, mv) && p == #[trigger] noted(q, mv, score, depth)
}

/// The entry is that of a move in a game with this result.
pub open spec fn entry_of_game(e: ExpEntry, result: u8) -> bool {
    exists|p: PendingEntry| #[trigger] entry_of_play(p) && e == finished(p, result)
}

/// The entries are those of one game with this result.
pub open spec fn entries_of_game(v: Seq<ExpEntry>, result: u8) -> bool {
    forall|i: int| 0 <= i < v.len() ==> #[trigger] entry_of_game(v[i], result)
}

// ---- Searching ----
/// What a search of a game found.
pub struct Searched {
    pub best: Move,
    pub score: i32,
    pub depth: i32,
}

/// Searches a position with the memory of the side to move.
pub fn search_pos(
    pos: &mut Position,
    info_white: &mut SearchInfo,
    info_black: &mut SearchInfo,
    hashes: &Vec<u64>,
    soft_nodes: u64,
) -> (s: Searched)
    requires
        old(info_white).wf(),
        old(info_black).wf(),
        playable(*old(pos)),
        old(pos).clock_room(128),
    ensures
        *final(pos) == *old(pos),
        same_player(*old(info_white), *final(info_white)),
        same_player(*old(info_black), *final(info_black)),
        s.best.0 != 0 ==> legal(*old(pos), s.best),
        bounded_score(s.score as int),
        both_calm(*old(info_white), *final(info_white), *old(info_black), *final(info_black)) ==> ({
            let a = asked(
                players(*old(info_white), *old(info_black)),
                *old(pos),
                hashes@,
                100,
                soft_nodes as int,
                HARD_NODE_LIMIT,
            );
            &&& players(*final(info_white), *final(info_black)) == a.0
            &&& s.best == a.1.best_move
            &&& s.score == a.1.score
            &&& s.depth == a.1.completed
        }),
{
    let limits: TimeControl = game_limits(soft_nodes);
    let r: (Move, i32, i32) = ask(pos, info_white, info_black, hashes, &limits);
    Searched { best: r.0, score: r.1, depth: r.2 }
}

/// Nothing from outside has decided the searches of either player.
pub open spec fn both_calm(w: SearchInfo, x: SearchInfo, b: SearchInfo, c: SearchInfo) -> bool {
    calm(w, x) && calm(b, c)
}

/// The position is drawn: it has stood three times, or nothing has happened for
/// a hundred plies.
pub open spec fn drawn_by_rule(p: Position, hashes: Seq<u64>) -> bool {
    times_seen(hashes, p.hash) >= 3 || p.halfmove_clock >= 100
}

fn is_drawn_by_rule(pos: &Position, hashes: &Vec<u64>) -> (b: bool)
    ensures
        b == drawn_by_rule(*pos, hashes@),
{
    count_seen(hashes, pos.hash) >= 3 || pos.halfmove_clock >= 100
}

/// The result of a position without legal moves.
pub open spec fn stuck_result(p: Position) -> u8 {
    if !p.in_check() {
        1
    } else if p.side == Color::White {
        0
    } else {
        2
    }
}

fn result_when_stuck(pos: &Position) -> (r: u8)
    ensures
        r == stuck_result(*pos),
        r <= 2,
{
    if !pos.is_in_check() {
        1
    } else if pos.side == Color::White {
        0
    } else {
        2
    }
}

fn legal_list(pos: &mut Position) -> (l: MoveList)
    requires
        playable(*old(pos)),
        old(pos).clock_room(1),
    ensures
        *final(pos) == *old(pos),
        l.wf(),
        l@ == legal_moves(*old(pos)),
{
    let mut l: MoveList = MoveList::new();
    generate_legal(pos, &mut l);
    assert(l@ =~= legal_moves(*pos));
    l
}

// ---- Games from the initial position ----
/// The move of the book for a position.
pub open spec fn diverse_move(b: ExpBook, p: Position, n: u64) -> Option<Move> {
    best_offer(p, b.offers(p), 2, n)
}

/// What a game has come to: what the players know, the random state, the moves
/// that were noted, and the result.
pub struct BookGame {
    pub players: Players,
    pub rng: Rng,
    pub notes: Seq<PendingEntry>,
    pub result: u8,
}

/// A game from a position on. In the opening the book, if there is one, is asked
/// first; its moves are scored by a short search, other moves by the search that
/// chose them.
pub open spec fn book_game(
    k: Players,
    book: Option<ExpBook>,
    p: Position,
    hashes: Seq<u64>,
    r: Rng,
    t: Tally,
    ply: int,
    soft_nodes: int,
    notes: Seq<PendingEntry>,
) -> BookGame
    decreases 512 - ply,
{
    let asks = ply < 18 && book is Some;
    let known = if asks {
        diverse_move(book.unwrap(), p, drawn(r))
    } else {
        None
    };
    let r2 = if asks {
        stepped(r)
    } else {
        r
    };
    let a = asked(
        k,
        p,
        hashes,
        100,
        if known is Some {
            10_000
        } else {
            soft_nodes
        },
        HARD_NODE_LIMIT,
    );
    let mv = if known is Some {
        known.unwrap()
    } else {
        a.1.best_move
    };
    let n2 = if ply < 18 {
        notes.push(noted(p, mv, a.1.score, a.1.completed))
    } else {
        notes
    };
    let j = judged(t, p.side, a.1.score, ply);
    if ply >= 512 || drawn_by_rule(p, hashes) {
        BookGame { players: k, rng: r, notes, result: 1 }
    } else if legal_moves(p).len() == 0 {
        BookGame { players: k, rng: r, notes, result: stuck_result(p) }
    } else if known is None && a.1.best_move.0 == 0 {
        BookGame { players: a.0, rng: r2, notes, result: 1 }
    } else if j.1 is Some {
        BookGame { players: a.0, rng: r2, notes: n2, result: j.1.unwrap() }
    } else {
        let q = after(p, mv);
        book_game(a.0, book, q, hashes.push(q.hash), r2, j.0, ply + 1, soft_nodes, n2)
    }
}

/// The entries of noted moves with the result of their game.
pub open spec fn all_finished(notes: Seq<PendingEntry>, result: u8) -> Seq<ExpEntry> {
    Seq::new(notes.len(), |i: int| finished(notes[i], result))
}

/// Plays a game and gives the moves of its opening as entries, with the result
/// of the game. The book, if there is one, is asked first; its moves are scored
/// by a short search, other moves by the search that chose them.
#[verifier::rlimit(80)]
pub fn play_game(
    info_white: &mut SearchInfo,
    info_black: &mut SearchInfo,
    rng: &mut Rng,
    book: Option<&ExpBook>,
    soft_nodes: u64,
) -> (v: Vec<ExpEntry>)
    requires
        old(info_white).wf(),
        old(info_black).wf(),
        book matches Some(b) ==> b.wf(),
    ensures
        same_player(*old(info_white), *final(info_white)),
        same_player(*old(info_black), *final(info_black)),
        v@.len() <= 18,
        exists|result: u8| result <= 2 && #[trigger] entries_of_game(v@, result),
        v@.len() > 0 ==> exists|p: Position| #[trigger] is_start(p) && v@[0].key == poly_hash(p),
        book is None ==> *final(rng) == *old(rng),
        exists|p: Position| #[trigger]
            is_start(p) && (both_calm(
                *old(info_white),
                *final(info_white),
                *old(info_black),
                *final(info_black),
            ) ==> {
                let g = book_game(
                    players(*old(info_white), *old(info_black)),
                    match book {
                        Some(b) => Some(*b),
                        None => None,
                    },
                    p,
                    seq![p.hash],
                    *old(rng),
                    Tally { white: 0, black: 0, drawn: 0 },
                    0,
                    soft_nodes as int,
                    Seq::empty(),
                );
                &&& players(*final(info_white), *final(info_black)) == g.players
                &&& *final(rng) == g.rng
                &&& v@ == all_finished(g.notes, g.result)
            }),
{
    let mut pos: Position = Position::startpos();
    let ghost start = pos;
    assert(is_start(start));
    let mut hashes: Vec<u64> = Vec::new();
    hashes.push(pos.hash);
    assert(hashes@ =~= seq![start.hash]);
    let mut pending: Vec<PendingEntry> = Vec::new();
    assert(pending@ =~= Seq::empty());
    let mut tally: Tally = Tally::new();
    let mut result: u8 = 1;
    let mut ply: u32 = 0;
    let ghost ob = match book {
        Some(b) => Some(*b),
        None => None,
    };
    let ghost g = book_game(
        players(*old(info_white), *old(info_black)),
        ob,
        start,
        seq![start.hash],
        *old(rng),
        tally,
        0,
        soft_nodes as int,
        Seq::empty(),
    );
    let mut over: bool = false;
    while ply < MAX_GAME_MOVES && !over
        invariant
            !over ==> playable(pos),
            !over ==> pos.clock_room(65000 - ply),
            !over ==> tally.white < 5 && tally.black < 5 && tally.drawn < 10,
            !over && ply == 0 ==> pos == start,
            !over && ply <= 18 ==> pending@.len() == ply,
            !over ==> result == 1,
            book matches Some(b) ==> b.wf(),
            ply <= 512,
            same_player(*old(info_white), *info_white),
            same_player(*old(info_black), *info_black),
            pending@.len() <= 18,
            pending@.len() > 0 ==> pending@[0].key == poly_hash(start),
            forall|i: int| 0 <= i < pending@.len() ==> #[trigger] entry_of_play(pending@[i]),
            result <= 2,
            book is None ==> *rng == *old(rng),
            ob == (match book {
                Some(b) => Some(*b),
                None => None,
            }),
            both_calm(
                *old(info_white),
                *info_white,
                *old(info_black),
                *info_black,
            ) ==> g == if over {
                BookGame {
                    players: players(*info_white, *info_black),
                    rng: *rng,
                    notes: pending@,
                    result,
                }
            } else {
                book_game(
                    players(*info_white, *info_black),
                    ob,
                    pos,
                    hashes@,
                    *rng,
                    tally,
                    ply as int,
                    soft_nodes as int,
                    pending@,
                )
            },
        decreases 512 - ply, !over as int,
    {
        if is_drawn_by_rule(&pos, &hashes) {
            over = true;
            continue;
        }
        let list: MoveList = legal_list(&mut pos);
        if list.len == 0 {
            result = result_when_stuck(&pos);
            over = true;
            continue;
        }
        let in_window: bool = ply < RECORD_PLIES;
        let mut known: Option<Move> = None;
        if in_window {
            if let Some(b) = book {
                let n: u64 = rng.next_u64();
                known = b.probe_best(&mut pos, DIVERSITY_VARIETY, n);
            }
        }
        let nodes: u64 = if known.is_some() {
            MINI_SEARCH_NODES
        } else {
            soft_nodes
        };
        let s: Searched = search_pos(&mut pos, info_white, info_black, &hashes, nodes);
        let played: Move = match known {
            Some(m) => m,
            None => s.best,
        };
        if known.is_none() && s.best.0 == 0 {
            over = true;
            continue;
        }
        assert(legal(pos, played));
        proof {
            sound_facts(pos);
        }
        if in_window {
            let e: PendingEntry = note_move(&pos, played, s.score, s.depth);
            proof {
                assert(e == noted(pos, played, s.score as int, s.depth as int));
                assert(entry_of_play(e));
            }
            pending.push(e);
        }
        if let Some(r) = tally.judge(pos.side, s.score, ply) {
            result = r;
            over = true;
            continue;
        }
        let ghost p0 = pos;
        let undo: Option<UndoInfo> = try_move(&mut pos, played);
        proof {
            clocks_after(p0, played, pos, undo->0, 65000 - ply);
        }
        hashes.push(pos.hash);
        ply = ply + 1;
    }
    let mut v: Vec<ExpEntry> = Vec::new();
    let mut i: usize = 0;
    while i < pending.len()
        invariant
            i <= pending@.len(),
            v@.len() == i,
            forall|k: int| 0 <= k < pending@.len() ==> #[trigger] entry_of_play(pending@[k]),
            forall|k: int| 0 <= k < i ==> #[trigger] v@[k] == finished(pending@[k], result),
        decreases pending@.len() - i,
    {
        v.push(fill_result(&pending[i], result));
        i = i + 1;
    }
    proof {
        assert forall|k: int| 0 <= k < v@.len() implies #[trigger] entry_of_game(v@[k], result) by {
            assert(entry_of_play(pending@[k]));
        }
        assert(entries_of_game(v@, result));
        assert(v@ =~= all_finished(pending@, result));
    }
    v
}

// ---- Games from a seed ----
/// Where seeded games start, and how far they explore.
pub struct SeedConfig {
    pub fen: String,
    /// The moves that are tried; none for the best move of a search.
    pub cand_moves_uci: Vec<String>,
    pub explore_plies: u32,
}

/// The value of a move for the side that makes it, without a search.
pub open spec fn value_after(p: Position, mv: Move) -> int {
    -evaluation(after(p, mv))
}

/// The largest value of the first `n` moves.
pub open spec fn best_value(p: Position, l: Seq<Move>, n: int) -> int
    decreases n,
{
    if n <= 1 {
        value_after(p, l[0])
    } else {
        let b = best_value(p, l, n - 1);
        if value_after(p, l[n - 1]) > b {
            value_after(p, l[n - 1])
        } else {
            b
        }
    }
}

/// The moves whose value is not below a limit.
pub open spec fn good_moves(p: Position, l: Seq<Move>, limit: int) -> Seq<Move>
    decreases l.len(),
{
    if l.len() == 0 {
        Seq::empty()
    } else {
        let g = good_moves(p, l.drop_last(), limit);
        if value_after(p, l.last()) >= limit {
            g.push(l.last())
        } else {
            g
        }
    }
}

/// The move that is drawn from those close to the best.
pub open spec fn reasonable(p: Position, l: Seq<Move>, r: Rng, margin: int) -> Move {
    let g = good_moves(p, l, best_value(p, l, l.len() as int) - margin);
    g[drawn(r) as int % g.len() as int]
}

proof fn best_is_good(p: Position, l: Seq<Move>, n: int, margin: int)
    requires
        0 < n <= l.len(),
        margin >= 0,
    ensures
        good_moves(p, l.take(n), best_value(p, l, n) - margin).len() > 0,
        forall|i: int| 0 <= i < n ==> value_after(p, #[trigger] l[i]) <= best_value(p, l, n),
        exists|i: int| 0 <= i < n && value_after(p, #[trigger] l[i]) == best_value(p, l, n),
    decreases n,
{
    let b = best_value(p, l, n);
    assert(l.take(n).last() == l[n - 1]);
    assert(l.take(n).drop_last() =~= l.take(n - 1));
    if n > 1 {
        best_is_good(p, l, n - 1, margin);
        if b == best_value(p, l, n - 1) {
            let i = choose|i: int|
                0 <= i < n - 1 && value_after(p, #[trigger] l[i]) == best_value(p, l, n - 1);
            assert(value_after(p, l[i]) == b);
        }
    } else {
        assert(value_after(p, l[0]) == b);
    }
}

proof fn good_is_listed(p: Position, l: Seq<Move>, limit: int)
    ensures
        forall|i: int|
            0 <= i < good_moves(p, l, limit).len() ==> l.contains(
                #[trigger] good_moves(p, l, limit)[i],
            ),
    decreases l.len(),
{
    if l.len() > 0 {
        let d = l.drop_last();
        good_is_listed(p, d, limit);
        let g = good_moves(p, d, limit);
        assert(l[l.len() - 1] == l.last());
        assert forall|i: int| 0 <= i < good_moves(p, l, limit).len() implies l.contains(
            #[trigger] good_moves(p, l, limit)[i],
        ) by {
            if i < g.len() {
                assert(d.contains(g[i]));
                let k = choose|k: int| 0 <= k < d.len() && d[k] == g[i];
                assert(l[k] == g[i]);
            }
        }
    }
}

fn move_value(pos: &Position, mv: Move) -> (v: i32)
    requires
        playable(*pos),
        legal(*pos, mv),
        pos.clock_room(1),
    ensures
        v == value_after(*pos, mv),
        -250_000 <= v <= 250_000,
{
    let mut q: Position = pos.clone();
    let _undo: Option<UndoInfo> = try_move(&mut q, mv);
    proof {
        sound_facts(q);
    }
    let e: i32 = evaluate(&q);
    0 - e
}

/// Draws one of the legal moves whose value is close to the best.
pub fn pick_reasonable(pos: &mut Position, list: &MoveList, rng: &mut Rng, margin: i32) -> (mv: Move)
    requires
        playable(*old(pos)),
        old(pos).clock_room(1),
        list.wf(),
        list@ == legal_moves(*old(pos)),
        list@.len() > 0,
        0 <= margin <= 1_000_000,
    ensures
        *final(pos) == *old(pos),
        mv == reasonable(*old(pos), list@, *old(rng), margin as int),
        legal(*old(pos), mv),
        *final(rng) == stepped(*old(rng)),
{
    proof {
        sound_facts(*pos);
    }
    let ghost p = *pos;
    let ghost l = list@;
    let mut values: Vec<i32> = Vec::new();
    let mut best: i32 = 0;
    let mut i: usize = 0;
    while i < list.len
        invariant
            *pos == p,
            playable(p),
            p.wf_boards(),
            p.ep_square <= 64,
            p.king_square(p.side) < 64,
            p.clock_room(1),
            list.wf(),
            l == list@,
            l == legal_moves(p),
            l.len() > 0,
            i <= l.len(),
            values@.len() == i,
            i > 0 ==> best == best_value(p, l, i as int),
            -250_000 <= best <= 250_000,
            forall|k: int| 0 <= k < i ==> #[trigger] values@[k] == value_after(p, l[k]),
        decreases l.len() - i,
    {
        let mv: Move = list.moves[i];
        proof {
            assert(l[i as int] == mv);
            assert(l.contains(mv));
            legal_moves_are_legal(p, mv);
        }
        let v: i32 = move_value(pos, mv);
        if i == 0 || v > best {
            best = v;
        }
        values.push(v);
        i = i + 1;
    }
    let limit: i32 = best - margin;
    let mut pool: Vec<Move> = Vec::new();
    let mut k: usize = 0;
    assert(l.take(0) =~= Seq::empty());
    while k < list.len
        invariant
            list.wf(),
            l == list@,
            k <= l.len(),
            values@.len() == l.len(),
            forall|j: int| 0 <= j < l.len() ==> #[trigger] values@[j] == value_after(p, l[j]),
            pool@ == good_moves(p, l.take(k as int), limit as int),
        decreases l.len() - k,
    {
        assert(l.take(k + 1).drop_last() =~= l.take(k as int));
        assert(l.take(k + 1).last() == l[k as int]);
        if values[k] >= limit {
            pool.push(list.moves[k]);
        }
        k = k + 1;
    }
    proof {
        assert(l.take(k as int) =~= l);
        best_is_good(p, l, l.len() as int, margin as int);
        good_is_listed(p, l, limit as int);
    }
    let n: usize = rng.next_usize(pool.len());
    let mv: Move = pool[n];
    proof {
        assert(l.contains(good_moves(p, l, limit as int)[n as int]));
        legal_moves_are_legal(p, mv);
    }
    mv
}

/// A game from a position to its end: what the players then know, and the result.
pub open spec fn game_to_end(
    k: Players,
    p: Position,
    hashes: Seq<u64>,
    t: Tally,
    ply: int,
    soft_nodes: int,
) -> (Players, u8)
    decreases 512 - ply,
{
    let a = asked(k, p, hashes, 100, soft_nodes, HARD_NODE_LIMIT);
    let j = judged(t, p.side, a.1.score, ply);
    if ply >= 512 || drawn_by_rule(p, hashes) {
        (k, 1)
    } else if legal_moves(p).len() == 0 {
        (k, stuck_result(p))
    } else if a.1.best_move.0 == 0 {
        (a.0, 1)
    } else if j.1 is Some {
        (a.0, j.1.unwrap())
    } else {
        let q = after(p, a.1.best_move);
        game_to_end(a.0, q, hashes.push(q.hash), j.0, ply + 1, soft_nodes)
    }
}

/// Plays a game from a position to its end, and gives the result.
#[verifier::rlimit(40)]
fn play_out(
    pos: &mut Position,
    info_white: &mut SearchInfo,
    info_black: &mut SearchInfo,
    hashes: &mut Vec<u64>,
    first_ply: u32,
    soft_nodes: u64,
) -> (result: u8)
    requires
        old(info_white).wf(),
        old(info_black).wf(),
        playable(*old(pos)),
        old(pos).clock_room(1000),
    ensures
        same_player(*old(info_white), *final(info_white)),
        same_player(*old(info_black), *final(info_black)),
        result <= 2,
        both_calm(*old(info_white), *final(info_white), *old(info_black), *final(info_black)) ==> (
            players(*final(info_white), *final(info_black)),
            result,
        ) == game_to_end(
            players(*old(info_white), *old(info_black)),
            *old(pos),
            old(hashes)@,
            Tally { white: 0, black: 0, drawn: 0 },
            first_ply as int,
            soft_nodes as int,
        ),
{
    let mut tally: Tally = Tally::new();
    let mut ply: u32 = first_ply;
    let mut steps: u32 = 0;
    let ghost g = game_to_end(
        players(*old(info_white), *old(info_black)),
        *old(pos),
        old(hashes)@,
        tally,
        first_ply as int,
        soft_nodes as int,
    );
    while ply < MAX_GAME_MOVES
        invariant
            playable(*pos),
            pos.clock_room(1000 - steps),
            ply == first_ply + steps,
            steps <= 512,
            steps > 0 ==> ply <= 512,
            tally.white < 5,
            tally.black < 5,
            tally.drawn < 10,
            same_player(*old(info_white), *info_white),
            same_player(*old(info_black), *info_black),
            g == game_to_end(
                players(*old(info_white), *old(info_black)),
                *old(pos),
                old(hashes)@,
                Tally { white: 0, black: 0, drawn: 0 },
                first_ply as int,
                soft_nodes as int,
            ),
            both_calm(*old(info_white), *info_white, *old(info_black), *info_black) ==> g
                == game_to_end(
                players(*info_white, *info_black),
                *pos,
                hashes@,
                tally,
                ply as int,
                soft_nodes as int,
            ),
        decreases 512 - ply,
    {
        if is_drawn_by_rule(pos, hashes) {
            return 1;
        }
        let list: MoveList = legal_list(pos);
        if list.len == 0 {
            return result_when_stuck(pos);
        }
        let s: Searched = search_pos(pos, info_white, info_black, hashes, soft_nodes);
        if s.best.0 == 0 {
            return 1;
        }
        if let Some(r) = tally.judge(pos.side, s.score, ply) {
            return r;
        }
        let ghost p0 = *pos;
        let undo: Option<UndoInfo> = try_move(pos, s.best);
        proof {
            clocks_after(p0, s.best, *pos, undo->0, 1000 - steps);
        }
        hashes.push(pos.hash);
        ply = ply + 1;
        steps = steps + 1;
    }
    1
}

/// Where exploring has led: the position, the random state, the hashes, how many
/// moves were made, and the result if the game is over.
pub struct Trail {
    pub pos: Position,
    pub rng: Rng,
    pub hashes: Seq<u64>,
    pub moves: int,
    pub over: Option<u8>,
}

/// Moves that are close to the best without a search, each drawn by chance, until
/// there are enough of them or the game ends. A draw by rule leaves it open.
pub open spec fn trail(p: Position, r: Rng, hashes: Seq<u64>, moves: int, plies: int) -> Trail
    decreases plies - moves,
{
    if moves >= plies || drawn_by_rule(p, hashes) {
        Trail { pos: p, rng: r, hashes, moves, over: None }
    } else if legal_moves(p).len() == 0 {
        Trail { pos: p, rng: r, hashes, moves, over: Some(stuck_result(p)) }
    } else {
        let q = after(p, reasonable(p, legal_moves(p), r, 120));
        trail(q, stepped(r), hashes.push(q.hash), moves + 1, plies)
    }
}

fn explore(pos: &mut Position, rng: &mut Rng, hashes: &mut Vec<u64>, plies: u32) -> (r: (
    Option<u8>,
    u32,
))
    requires
        playable(*old(pos)),
        plies <= 60000,
        old(pos).clock_room(plies + 1000),
    ensures
        playable(*final(pos)),
        final(pos).clock_room(1000),
        r.1 <= plies,
        r.0 matches Some(x) ==> x <= 2,
        trail(*old(pos), *old(rng), old(hashes)@, 0, plies as int) == (Trail {
            pos: *final(pos),
            rng: *final(rng),
            hashes: final(hashes)@,
            moves: r.1 as int,
            over: r.0,
        }),
{
    let mut done: u32 = 0;
    while done < plies
        invariant
            done <= plies <= 60000,
            playable(*pos),
            pos.clock_room(plies - done + 1000),
            trail(*old(pos), *old(rng), old(hashes)@, 0, plies as int) == trail(
                *pos,
                *rng,
                hashes@,
                done as int,
                plies as int,
            ),
        decreases plies - done,
    {
        if is_drawn_by_rule(pos, hashes) {
            return (None, done);
        }
        let list: MoveList = legal_list(pos);
        if list.len == 0 {
            return (Some(result_when_stuck(pos)), done);
        }
        let mv: Move = pick_reasonable(pos, &list, rng, EXPLORE_HCE_MARGIN);
        let ghost p0 = *pos;
        let undo: Option<UndoInfo> = try_move(pos, mv);
        proof {
            clocks_after(p0, mv, *pos, undo->0, plies - done + 1000);
        }
        hashes.push(pos.hash);
        done = done + 1;
    }
    (None, done)
}

/// A game from a seed: what the players then know, the random state, and the entry
/// of its first move, if there is one. The move is one of the candidates by
/// chance, or the best move of a search; a short search of the position after it
/// scores it. The game then explores, and is given up if that leaves a side far
/// ahead.
pub open spec fn seeded_game(
    k: Players,
    start: Position,
    candidates: Seq<Move>,
    r: Rng,
    plies: int,
    soft_nodes: int,
) -> (Players, Rng, Option<ExpEntry>) {
    let h = seq![start.hash];
    let first = asked(k, start, h, 100, soft_nodes, HARD_NODE_LIMIT);
    let by_search = candidates.len() == 0;
    let mv = if by_search {
        first.1.best_move
    } else {
        candidates[drawn(r) as int % candidates.len() as int]
    };
    if by_search && mv.0 == 0 {
        (first.0, r, None)
    } else {
        let k1 = if by_search {
            first.0
        } else {
            k
        };
        let r1 = if by_search {
            r
        } else {
            stepped(r)
        };
        let q = after(start, mv);
        let c = asked(k1, q, h.push(q.hash), 100, 10_000, HARD_NODE_LIMIT);
        let e = noted(start, mv, -c.1.score, c.1.completed);
        let t = trail(q, r1, h.push(q.hash), 0, plies);
        if t.over is Some {
            (c.0, t.rng, Some(finished(e, t.over.unwrap())))
        } else {
            let g = asked(c.0, t.pos, t.hashes, 100, 10_000, HARD_NODE_LIMIT);
            if mag(g.1.score) > 1000 {
                (g.0, t.rng, None)
            } else {
                let none = Tally { white: 0, black: 0, drawn: 0 };
                let o = game_to_end(g.0, t.pos, t.hashes, none, 1 + t.moves, soft_nodes);
                (o.0, t.rng, Some(finished(e, o.1)))
            }
        }
    }
}

/// Plays a game from a seed, and gives its first move as an entry with the
/// result: one of the candidates by chance, or the best move of a search. The
/// game first explores; if that leaves a side far ahead, there is no entry.
#[verifier::rlimit(80)]
pub fn play_game_seeded(
    info_white: &mut SearchInfo,
    info_black: &mut SearchInfo,
    rng: &mut Rng,
    start: &Position,
    candidates: &Vec<Move>,
    explore_plies: u32,
    soft_nodes: u64,
) -> (v: Vec<ExpEntry>)
    requires
        old(info_white).wf(),
        old(info_black).wf(),
        playable(*start),
        explore_plies <= 60000,
        start.clock_room(explore_plies + 1001),
        forall|i: int| 0 <= i < candidates@.len() ==> legal(*start, #[trigger] candidates@[i]),
    ensures
        same_player(*old(info_white), *final(info_white)),
        same_player(*old(info_black), *final(info_black)),
        v@.len() <= 1,
        exists|result: u8| result <= 2 && #[trigger] entries_of_game(v@, result),
        v@.len() > 0 ==> v@[0].key == poly_hash(*start),
        v@.len() > 0 && candidates@.len() > 0 ==> v@[0].packed_move == poly_code(
            candidates@[drawn(*old(rng)) as int % candidates@.len() as int],
        ),
        both_calm(*old(info_white), *final(info_white), *old(info_black), *final(info_black)) ==> ({
            let g = seeded_game(
                players(*old(info_white), *old(info_black)),
                *start,
                candidates@,
                *old(rng),
                explore_plies as int,
                soft_nodes as int,
            );
            &&& players(*final(info_white), *final(info_black)) == g.0
            &&& *final(rng) == g.1
            &&& v@ == match g.2 {
                Some(e) => seq![e],
                None => Seq::empty(),
            }
        }),
{
    let mut v: Vec<ExpEntry> = Vec::new();
    assert(entries_of_game(v@, 1u8));
    assert(v@ =~= Seq::empty());
    let mut pos: Position = start.clone();
    let mut hashes: Vec<u64> = Vec::new();
    hashes.push(pos.hash);
    assert(hashes@ =~= seq![start.hash]);
    let chosen: Move = if candidates.len() == 0 {
        let s: Searched = search_pos(&mut pos, info_white, info_black, &hashes, soft_nodes);
        if s.best.0 == 0 {
            return v;
        }
        s.best
    } else {
        let k: usize = rng.next_usize(candidates.len());
        assert(legal(*start, candidates@[k as int]));
        candidates[k]
    };
    let undo: Option<UndoInfo> = try_move(&mut pos, chosen);
    proof {
        clocks_after(*start, chosen, pos, undo->0, explore_plies + 1001);
        sound_facts(*start);
    }
    hashes.push(pos.hash);
    let child: Searched = search_pos(&mut pos, info_white, info_black, &hashes, MINI_SEARCH_NODES);
    let pending: PendingEntry = note_move(start, chosen, 0 - child.score, child.depth);
    proof {
        assert(pending == noted(*start, chosen, -(child.score as int), child.depth as int));
        assert(entry_of_play(pending));
    }
    let x: (Option<u8>, u32) = explore(&mut pos, rng, &mut hashes, explore_plies);
    let result: u8 = match x.0 {
        Some(r) => r,
        None => {
            let gate: Searched = search_pos(
                &mut pos,
                info_white,
                info_black,
                &hashes,
                MINI_SEARCH_NODES,
            );
            if mag_i32(gate.score) > SEED_VERIFY_LIMIT {
                return v;
            }
            play_out(&mut pos, info_white, info_black, &mut hashes, 1 + x.1, soft_nodes)
        },
    };
    v.push(fill_result(&pending, result));
    proof {
        assert(v@[0] == finished(pending, result));
        assert forall|k: int| 0 <= k < v@.len() implies #[trigger] entry_of_game(v@[k], result) by {
            assert(entry_of_play(pending));
        }
        assert(entries_of_game(v@, result));
        assert(v@ =~= seq![finished(pending, result)]);
    }
    v
}

// ---- Walks through a book ----
/// The entries that were played often enough, as candidates by their counts.
pub open spec fn often_played(s: Seq<ExpEntry>, min_count: int) -> Seq<Candidate>
    decreases s.len(),
{
    if s.len() == 0 {
        Seq::empty()
    } else {
        let c = often_played(s.drop_last(), min_count);
        if s.last().count >= min_count {
            c.push(Candidate { raw: s.last().packed_move, weight: s.last().count })
        } else {
            c
        }
    }
}

/// The candidates of a position: those that were played often enough, or all if
/// none was.
pub open spec fn pool_of(s: Seq<ExpEntry>, min_count: int) -> Seq<Candidate> {
    if often_played(s, min_count).len() > 0 {
        often_played(s, min_count)
    } else {
        often_played(s, 0)
    }
}

/// The move that is drawn from the entries of a position by their counts, and the
/// random state after that.
pub open spec fn sampled(p: Position, s: Seq<ExpEntry>, r: Rng, min_count: int) -> (
    Option<Move>,
    Rng,
) {
    let l = pool_of(s, min_count);
    if l.len() == 0 || total_weight(l) == 0 {
        (None, r)
    } else {
        (
            decoded(p, at_point(l, drawn(r) as int % total_weight(l), 0).raw as int),
            stepped(r),
        )
    }
}

fn collect_often(s: &Vec<ExpEntry>, min_count: u16) -> (c: Vec<Candidate>)
    ensures
        c@ == often_played(s@, min_count as int),
{
    let mut c: Vec<Candidate> = Vec::new();
    let mut i: usize = 0;
    assert(s@.take(0) =~= Seq::empty());
    while i < s.len()
        invariant
            i <= s@.len(),
            c@ == often_played(s@.take(i as int), min_count as int),
        decreases s@.len() - i,
    {
        assert(s@.take(i + 1).drop_last() =~= s@.take(i as int));
        if s[i].count >= min_count {
            c.push(Candidate { raw: s[i].packed_move, weight: s[i].count });
        }
        i = i + 1;
    }
    assert(s@.take(i as int) =~= s@);
    c
}

fn has_weight(l: &Vec<Candidate>) -> (b: bool)
    ensures
        b == (total_weight(l@) > 0),
        total_weight(l@) >= 0,
{
    let mut i: usize = 0;
    let mut b: bool = false;
    assert(l@.take(0) =~= Seq::empty());
    while i < l.len()
        invariant
            i <= l@.len(),
            b == (total_weight(l@.take(i as int)) > 0),
            total_weight(l@.take(i as int)) >= 0,
        decreases l@.len() - i,
    {
        assert(l@.take(i + 1).drop_last() =~= l@.take(i as int));
        if l[i].weight > 0 {
            b = true;
        }
        i = i + 1;
    }
    assert(l@.take(i as int) =~= l@);
    b
}

/// Draws a move of a book for a position, by how often it was played.
pub fn sample_book_move(book: &ExpBook, pos: &mut Position, rng: &mut Rng, min_count: u16) -> (r:
    Option<Move>)
    requires
        book.wf(),
        playable(*old(pos)),
        old(pos).clock_room(1),
    ensures
        *final(pos) == *old(pos),
        r matches Some(m) ==> legal(*old(pos), m),
        !book.sorted ==> r is None && *final(rng) == *old(rng),
        (r, *final(rng)) == sampled(
            *old(pos),
            book.offers(*old(pos)),
            *old(rng),
            min_count as int,
        ),
{
    proof {
        sound_facts(*pos);
    }
    let entries: Vec<ExpEntry> = book.probe(pos);
    let mut l: Vec<Candidate> = collect_often(&entries, min_count);
    if l.len() == 0 {
        l = collect_often(&entries, 0);
    }
    if l.len() == 0 || !has_weight(&l) {
        return None;
    }
    let raw: u16 = drawn_of(&l, rng.next_u64());
    proof {
        decoded_is_legal(*pos, raw as int);
    }
    decode_poly_move(pos, raw)
}

/// A walk of book moves: the position at its end, or nothing if the book has none.
pub open spec fn walked(b: ExpBook, p: Position, r: Rng, min_count: int, n: int) -> (
    Option<Position>,
    Rng,
)
    decreases n,
{
    if n <= 0 {
        (Some(p), r)
    } else {
        let s = sampled(p, b.offers(p), r, min_count);
        match s.0 {
            Some(m) => walked(b, after(p, m), s.1, min_count, n - 1),
            None => (None, s.1),
        }
    }
}

/// Walks through a book from the initial position.
pub fn walk_book(book: &ExpBook, rng: &mut Rng, plies: u32, min_count: u16) -> (r: Option<Position>)
    requires
        book.wf(),
        plies <= 60000,
    ensures
        r matches Some(p) ==> playable(p),
        exists|p: Position| #[trigger]
            is_start(p) && (r, *final(rng)) == walked(
                *book,
                p,
                *old(rng),
                min_count as int,
                plies as int,
            ),
{
    let mut pos: Position = Position::startpos();
    let ghost start = pos;
    assert(is_start(start));
    let mut i: u32 = 0;
    while i < plies
        invariant
            i <= plies <= 60000,
            book.wf(),
            is_start(start),
            playable(pos),
            pos.clock_room(plies - i + 1),
            walked(*book, pos, *rng, min_count as int, plies - i) == walked(
                *book,
                start,
                *old(rng),
                min_count as int,
                plies as int,
            ),
        decreases plies - i,
    {
        let mv: Move = match sample_book_move(book, &mut pos, rng, min_count) {
            Some(m) => m,
            None => {
                return None;
            },
        };
        let ghost p0 = pos;
        let undo: Option<UndoInfo> = try_move(&mut pos, mv);
        proof {
            clocks_after(p0, mv, pos, undo->0, plies - i + 1);
        }
        i = i + 1;
    }
    Some(pos)
}

// ---- Sorted lists of texts ----
/// A text comes before another in the order of its characters.
pub open spec fn earlier(a: Seq<char>, b: Seq<char>) -> bool
    decreases a.len(),
{
    if b.len() == 0 {
        false
    } else if a.len() == 0 {
        true
    } else {
        a[0] < b[0] || a[0] == b[0] && earlier(a.drop_first(), b.drop_first())
    }
}

proof fn earlier_is_transitive(a: Seq<char>, b: Seq<char>, c: Seq<char>)
    requires
        earlier(a, b),
        earlier(b, c),
    ensures
        earlier(a, c),
    decreases a.len(),
{
    if a.len() > 0 && a[0] == b[0] && b[0] == c[0] {
        earlier_is_transitive(a.drop_first(), b.drop_first(), c.drop_first());
    }
}

proof fn one_is_earlier(a: Seq<char>, b: Seq<char>)
    ensures
        earlier(a, b) || earlier(b, a) || a == b,
    decreases a.len(),
{
    if a.len() == 0 && b.len() == 0 {
        assert(a =~= b);
    } else if a.len() > 0 && b.len() > 0 && a[0] == b[0] {
        one_is_earlier(a.drop_first(), b.drop_first());
        if a.drop_first() == b.drop_first() {
            assert(a =~= seq![a[0]] + a.drop_first());
            assert(b =~= seq![b[0]] + b.drop_first());
        }
    }
}

fn is_earlier(a: &Vec<char>, b: &Vec<char>) -> (r: bool)
    ensures
        r == earlier(a@, b@),
{
    let mut i: usize = 0;
    assert(a@.skip(0) =~= a@);
    assert(b@.skip(0) =~= b@);
    while i < a.len() && i < b.len()
        invariant
            i <= a@.len(),
            i <= b@.len(),
            earlier(a@.skip(i as int), b@.skip(i as int)) == earlier(a@, b@),
        decreases a@.len() - i,
    {
        assert(a@.skip(i as int).drop_first() =~= a@.skip(i + 1));
        assert(b@.skip(i as int).drop_first() =~= b@.skip(i + 1));
        if a[i] != b[i] {
            return a[i] < b[i];
        }
        i = i + 1;
    }
    i < b.len()
}

/// The texts ascend, so none occurs twice.
pub open spec fn ascending_texts(v: Seq<Seq<char>>) -> bool {
    forall|i: int, j: int| 0 <= i < j < v.len() ==> earlier(#[trigger] v[i], #[trigger] v[j])
}

/// Adds a text to a sorted list, unless it is there.
fn add_text(v: &mut Vec<Vec<char>>, t: Vec<char>)
    requires
        ascending_texts(texts(old(v)@)),
    ensures
        ascending_texts(texts(final(v)@)),
        forall|x: Seq<char>| #[trigger]
            texts(final(v)@).contains(x) == (texts(old(v)@).contains(x) || x == t@),
{
    let mut k: usize = 0;
    let ghost s = texts(v@);
    while k < v.len() && is_earlier(&v[k], &t)
        invariant
            k <= v@.len(),
            s == texts(v@),
            forall|i: int| 0 <= i < k ==> earlier(#[trigger] s[i], t@),
        decreases v@.len() - k,
    {
        assert(s[k as int] == v@[k as int]@);
        k = k + 1;
    }
    if k < v.len() && same_chars(&v[k], &t) {
        assert(s[k as int] == t@);
        assert(s.contains(t@));
        return ;
    }
    let ghost word = t@;
    proof {
        if k < v@.len() {
            assert(s[k as int] == v@[k as int]@);
            one_is_earlier(s[k as int], word);
        }
    }
    v.insert(k, t);
    proof {
        let n = texts(v@);
        assert(n =~= s.insert(k as int, word));
        assert forall|i: int, j: int| 0 <= i < j < n.len() implies earlier(
            #[trigger] n[i],
            #[trigger] n[j],
        ) by {
            let a = if i < k {
                i
            } else {
                i - 1
            };
            let b = if j < k {
                j
            } else {
                j - 1
            };
            if i != k && j != k {
                assert(n[i] == s[a] && n[j] == s[b]);
            } else if i == k {
                assert(n[j] == s[b]);
                if b > k {
                    earlier_is_transitive(word, s[k as int], s[b]);
                }
            } else {
                assert(n[i] == s[a]);
            }
        }
        assert forall|x: Seq<char>| #[trigger] n.contains(x) == (s.contains(x) || x == word) by {
            if s.contains(x) {
                let i = choose|i: int| 0 <= i < s.len() && s[i] == x;
                if i < k {
                    assert(n[i] == x);
                } else {
                    assert(n[i + 1] == x);
                }
            }
            assert(n[k as int] == word);
            if n.contains(x) {
                let i = choose|i: int| 0 <= i < n.len() && n[i] == x;
                if i < k {
                    assert(s[i] == x);
                } else if i > k {
                    assert(s[i - 1] == x);
                }
            }
        }
    }
}

/// The walks through a book, one after the other.
pub open spec fn walks(b: ExpBook, p: Position, r: Rng, min_count: int, plies: int, n: int) -> (
    Seq<Option<Position>>,
    Rng,
)
    decreases n,
{
    if n <= 0 {
        (Seq::empty(), r)
    } else {
        let before = walks(b, p, r, min_count, plies, n - 1);
        let w = walked(b, p, before.1, min_count, plies);
        (before.0.push(w.0), w.1)
    }
}

/// A walk has ended in a position with this FEN.
pub open spec fn reached(w: Seq<Option<Position>>, fen: Seq<char>) -> bool {
    exists|i: int| 0 <= i < w.len() && (#[trigger] w[i]) is Some && fen_text(w[i]->0) == fen
}

/// How many walks have ended early.
pub open spec fn cut_short(w: Seq<Option<Position>>) -> int
    decreases w.len(),
{
    if w.len() == 0 {
        0
    } else {
        cut_short(w.drop_last()) + if w.last() is None {
            1int
        } else {
            0
        }
    }
}

/// The FENs that walks through a book end in, sorted and each once, and how many
/// walks ended early.
pub fn book_fens(book: &ExpBook, rng: &mut Rng, games: u32, plies: u32, min_count: u16) -> (r: (
    Vec<Vec<char>>,
    u32,
))
    requires
        book.wf(),
        plies <= 60000,
    ensures
        ascending_texts(texts(r.0@)),
        r.1 <= games,
        exists|p: Position| #[trigger]
            is_start(p) && ({
                let w = walks(*book, p, *old(rng), min_count as int, plies as int, games as int).0;
                &&& forall|x: Seq<char>| #[trigger] texts(r.0@).contains(x) == reached(w, x)
                &&& r.1 == cut_short(w)
            }),
{
    let mut v: Vec<Vec<char>> = Vec::new();
    let mut short: u32 = 0;
    let mut i: u32 = 0;
    let start: Position = Position::startpos();
    assert(is_start(start));
    let ghost first = *rng;
    while i < games
        invariant
            i <= games,
            book.wf(),
            plies <= 60000,
            is_start(start),
            short <= i,
            ascending_texts(texts(v@)),
            ({
                let w = walks(*book, start, first, min_count as int, plies as int, i as int);
                &&& forall|x: Seq<char>| #[trigger] texts(v@).contains(x) == reached(w.0, x)
                &&& short == cut_short(w.0)
                &&& *rng == w.1
            }),
        decreases games - i,
    {
        let ghost before = walks(*book, start, first, min_count as int, plies as int, i as int);
        let ghost v0 = texts(v@);
        let ghost now = walks(*book, start, first, min_count as int, plies as int, i + 1);
        let e: Option<Position> = walk_book(book, rng, plies, min_count);
        proof {
            let p = choose|p: Position| #[trigger]
                is_start(p) && (e, *rng) == walked(
                    *book,
                    p,
                    before.1,
                    min_count as int,
                    plies as int,
                );
            start_once(p, start);
            assert(now.0 == before.0.push(e));
            assert(now.0.drop_last() =~= before.0);
        }
        match e {
            Some(p) => {
                proof {
                    sound_facts(p);
                }
                let t: Vec<char> = chars_of(p.to_fen().as_str());
                add_text(&mut v, t);
            },
            None => {
                short = short + 1;
            },
        }
        proof {
            assert forall|x: Seq<char>| #[trigger] texts(v@).contains(x) == reached(now.0, x) by {
                assert(v0.contains(x) == reached(before.0, x));
                if reached(before.0, x) {
                    let k = choose|k: int|
                        0 <= k < before.0.len() && (#[trigger] before.0[k]) is Some && fen_text(
                            before.0[k]->0,
                        ) == x;
                    assert(now.0[k] == before.0[k]);
                }
                if reached(now.0, x) {
                    let k = choose|k: int|
                        0 <= k < now.0.len() && (#[trigger] now.0[k]) is Some && fen_text(
                            now.0[k]->0,
                        ) == x;
                    if k < before.0.len() {
                        assert(before.0[k] == now.0[k]);
                    }
                }
                if e is Some && fen_text(e->0) == x {
                    assert(now.0[before.0.len() as int] == e);
                }
            }
        }
        i = i + 1;
    }
    (v, short)
}

} // verus!
