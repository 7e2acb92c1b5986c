//! Self-play games that give training records.

use crate::bitboard::popcount;
use crate::board::{after, Position};
use crate::book::{chosen_move, Book};
use crate::decide::MAX_DEPTH;
use crate::game::is_start;
use crate::model::{cleared, search_result, Course, Mind};
use crate::movegen::generate_legal;
use crate::num::{mag, mag_i32};
use crate::ordering::{KillerPair, MAX_PLY};
use crate::play::{clocks_after, try_move};
use crate::records::{can_pack, pack_position, packed};
use crate::rng::{drawn, stepped, Rng};
use crate::rules::{legal, legal_moves, legal_moves_are_legal, playable, sound_facts};
use crate::search::{bounded_score, gives, search, SearchInfo};
use crate::time::{depth_limit, Budget, TimeControl, TimeManager};
use crate::tt::{TTBucket, TTEntry};
use crate::types::{Color, Move, MoveList, UndoInfo};
use vstd::prelude::*;

verus! {

/// A score from which a game counts as won.
pub const WIN_ADJ_SCORE: i32 = 3000;

/// How many such scores in a row end a game.
pub const WIN_ADJ_COUNT: u32 = 5;

/// A score up to which a game counts as drawn.
pub const DRAW_ADJ_SCORE: i32 = 10;

/// How many such scores in a row end a game.
pub const DRAW_ADJ_COUNT: u32 = 10;

/// The ply from which games are given as drawn.
pub const DRAW_ADJ_MIN_PLY: u32 = 70;

/// The longest game.
pub const MAX_GAME_MOVES: u32 = 512;

/// The random moves of an opening.
pub const RANDOM_OPENING_PLIES: u32 = 8;

/// The first ply that is recorded.
pub const MIN_RECORD_PLY: u32 = 8;

/// A score from which positions are not recorded.
pub const SCORE_FILTER: i32 = 10000;

/// The largest score of an opening that is played on.
pub const OPENING_VERIFY_LIMIT: i32 = 1000;

/// The most nodes of a search.
pub const HARD_NODE_LIMIT: u64 = 10_000_000;

// ---- Openings ----
/// Moves that are drawn from the legal ones. Nothing if a position has none.
pub open spec fn random_walk(p: Position, r: Rng, n: int) -> (Option<Position>, Rng)
    decreases n,
{
    if n <= 0 {
        (Some(p), r)
    } else {
        let l = legal_moves(p);
        if l.len() == 0 {
            (None, r)
        } else {
            random_walk(after(p, l[drawn(r) as int % l.len() as int]), stepped(r), n - 1)
        }
    }
}

/// Moves of a book, each drawn by a random number, up to 40 of them: the
/// position, the next random state and the number of moves.
pub open spec fn book_walk(b: Book, p: Position, r: Rng, plies: int) -> (Position, Rng, int)
    decreases 40 - plies,
{
    match chosen_move(p, b.offers(p), drawn(r) as int, false) {
        Some(m) => if plies + 1 >= 40 {
            (after(p, m), stepped(r), plies + 1)
        } else {
            book_walk(b, after(p, m), stepped(r), plies + 1)
        },
        None => (p, stepped(r), plies),
    }
}

/// The opening of a game: book moves, or random moves without a book or if the
/// book ends early.
pub open spec fn opening_of(book: Option<Book>, p: Position, r: Rng) -> (Option<Position>, Rng) {
    match book {
        Some(b) => {
            let w = book_walk(b, p, r, 0);
            if w.2 < 4 {
                random_walk(w.0, w.1, 8 - w.2)
            } else {
                (Some(w.0), w.1)
            }
        },
        None => random_walk(p, r, 8),
    }
}

fn pick_random(pos: &mut Position, rng: &mut Rng, n: u32) -> (ok: bool)
    requires
        playable(*old(pos)),
        old(pos).clock_room(n + 1),
    ensures
        (if ok {
            Some(*final(pos))
        } else {
            None
        }, *final(rng)) == random_walk(*old(pos), *old(rng), n as int),
        playable(*final(pos)),
        forall|k: int| old(pos).clock_room(n + k) ==> #[trigger] final(pos).clock_room(k),
{
    let mut i: u32 = 0;
    while i < n
        invariant
            i <= n,
            playable(*pos),
            pos.clock_room(n - i + 1),
            forall|k: int| old(pos).clock_room(i + k) ==> #[trigger] pos.clock_room(k),
            random_walk(*pos, *rng, n - i) == random_walk(*old(pos), *old(rng), n as int),
        decreases n - i,
    {
        let mut list: MoveList = MoveList::new();
        generate_legal(pos, &mut list);
        assert(list@ =~= legal_moves(*pos));
        if list.len == 0 {
            return false;
        }
        let k: usize = rng.next_usize(list.len);
        let mv: Move = list.moves[k];
        proof {
            sound_facts(*pos);
            assert(legal_moves(*pos)[k as int] == mv);
            assert(legal_moves(*pos).contains(mv));
            legal_moves_are_legal(*pos, mv);
        }
        let ghost p0 = *pos;
        let undo: Option<UndoInfo> = try_move(pos, mv);
        proof {
            clocks_after(p0, mv, *pos, undo->0, n - i + 1);
            assert forall|k: int| old(pos).clock_room(i + 1 + k) implies #[trigger] pos.clock_room(
                k,
            ) by {
                assert(p0.clock_room(k + 1));
                clocks_after(p0, mv, *pos, undo->0, k + 1);
            }
        }
        i = i + 1;
    }
    true
}

fn play_book(pos: &mut Position, rng: &mut Rng, book: &Book) -> (plies: u32)
    requires
        playable(*old(pos)),
        old(pos).clock_room(41),
        book.wf(),
    ensures
        plies <= 40,
        (*final(pos), *final(rng), plies as int) == book_walk(
            *book,
            *old(pos),
            *old(rng),
            0,
        ),
        playable(*final(pos)),
        forall|k: int| old(pos).clock_room(40 + k) ==> #[trigger] final(pos).clock_room(k),
{
    let mut plies: u32 = 0;
    loop
        invariant
            plies < 40,
            book.wf(),
            playable(*pos),
            pos.clock_room(41 - plies),
            forall|k: int| old(pos).clock_room(plies + k) ==> #[trigger] pos.clock_room(k),
            book_walk(*book, *pos, *rng, plies as int) == book_walk(
                *book,
                *old(pos),
                *old(rng),
                0,
            ),
        decreases 40 - plies,
    {
        let n: u64 = rng.next_u64();
        let mv: Move = match book.probe(pos, n, false) {
            Some(m) => m,
            None => {
                assert forall|k: int| old(pos).clock_room(40 + k) implies #[trigger] pos.clock_room(
                    k,
                ) by {
                    assert(old(pos).clock_room(plies + k));
                }
                return plies;
            },
        };
        let ghost p0 = *pos;
        let undo: Option<UndoInfo> = try_move(pos, mv);
        proof {
            clocks_after(p0, mv, *pos, undo->0, 41 - plies);
            assert forall|k: int| old(pos).clock_room(plies + 1 + k) implies #[trigger] pos.clock_room(
                k,
            ) by {
                assert(p0.clock_room(k + 1));
                clocks_after(p0, mv, *pos, undo->0, k + 1);
            }
        }
        plies = plies + 1;
        if plies >= 40 {
            return plies;
        }
    }
}

/// Plays the opening of a game. Nothing if a position has no legal move.
pub fn play_opening(rng: &mut Rng, book: Option<&Book>) -> (r: Option<Position>)
    requires
        book matches Some(b) ==> b.wf(),
    ensures
        r matches Some(p) ==> playable(p) && p.clock_room(65000),
        exists|p: Position| #[trigger]
            is_start(p) && (r, *final(rng)) == opening_of(
                match book {
                    Some(b) => Some(*b),
                    None => None,
                },
                p,
                *old(rng),
            ),
{
    let mut pos: Position = Position::startpos();
    let ghost start = pos;
    assert(is_start(start));
    let mut n: u32 = RANDOM_OPENING_PLIES;
    if let Some(b) = book {
        let plies: u32 = play_book(&mut pos, rng, b);
        assert(pos.clock_room(65100)) by {
            assert(start.clock_room(40int + 65100));
        }
        if plies >= 4 {
            return Some(pos);
        }
        n = RANDOM_OPENING_PLIES - plies;
    }
    assert(pos.clock_room(65100));
    let ghost mid = pos;
    if pick_random(&mut pos, rng, n) {
        assert(pos.clock_room(65000)) by {
            assert(mid.clock_room(n + 65000));
        }
        Some(pos)
    } else {
        None
    }
}

// ---- Ends of games ----
/// How often a hash occurs.
pub open spec fn times_seen(h: Seq<u64>, x: u64) -> int
    decreases h.len(),
{
    if h.len() == 0 {
        0
    } else {
        times_seen(h.drop_last(), x) + if h.last() == x {
            1int
        } else {
            0
        }
    }
}

pub fn count_seen(h: &Vec<u64>, x: u64) -> (n: usize)
    ensures
        n == times_seen(h@, x),
        n <= h@.len(),
{
    let mut n: usize = 0;
    let mut i: usize = 0;
    assert(h@.take(0) =~= Seq::empty());
    while i < h.len()
        invariant
            i <= h@.len(),
            n <= i,
            n == times_seen(h@.take(i as int), x),
        decreases h@.len() - i,
    {
        assert(h@.take(i + 1).drop_last() =~= h@.take(i as int));
        if h[i] == x {
            n = n + 1;
        }
        i = i + 1;
    }
    assert(h@.take(i as int) =~= h@);
    n
}

/// The result of a game that ends in a position, as White sees it: 0 for a loss,
/// 1 for a draw, 2 for a win. The hashes are those of all positions so far.
pub open spec fn ended(p: Position, hashes: Seq<u64>) -> Option<u8> {
    if times_seen(hashes, p.hash) >= 3 || p.halfmove_clock >= 100 {
        Some(1)
    } else if legal_moves(p).len() == 0 {
        Some(
            if !p.in_check() {
                1
            } else if p.side == Color::White {
                0
            } else {
                2
            },
        )
    } else {
        None
    }
}

/// Tests whether a game ends in a position.
pub fn game_end(pos: &mut Position, hashes: &Vec<u64>) -> (r: Option<u8>)
    requires
        playable(*old(pos)),
        old(pos).clock_room(1),
    ensures
        *final(pos) == *old(pos),
        r == ended(*old(pos), hashes@),
{
    if count_seen(hashes, pos.hash) >= 3 || pos.halfmove_clock >= 100 {
        return Some(1);
    }
    let mut list: MoveList = MoveList::new();
    generate_legal(pos, &mut list);
    assert(list@ =~= legal_moves(*pos));
    if list.len == 0 {
        if !pos.is_in_check() {
            Some(1)
        } else if pos.side == Color::White {
            Some(0)
        } else {
            Some(2)
        }
    } else {
        None
    }
}

/// How many scores in a row have spoken for each result.
#[derive(Clone, Copy, PartialEq, Eq, Structural, Debug)]
pub struct Tally {
    pub white: u32,
    pub black: u32,
    pub drawn: u32,
}

/// The tally after a score of the side to move, and the result if that decides
/// the game.
pub open spec fn judged(t: Tally, side: Color, score: int, ply: int) -> (Tally, Option<u8>) {
    let won = mag(score) >= 3000;
    let for_white = side == Color::White && score > 0 || side == Color::Black && score < 0;
    let white = if won && for_white {
        t.white + 1
    } else {
        0
    };
    let black = if won && !for_white {
        t.black + 1
    } else {
        0
    };
    let quiet = if ply >= 70 && mag(score) <= 10 {
        t.drawn + 1
    } else {
        0
    };
    if white >= 5 {
        (Tally { white: white as u32, black: black as u32, drawn: t.drawn }, Some(2))
    } else if black >= 5 {
        (Tally { white: white as u32, black: black as u32, drawn: t.drawn }, Some(0))
    } else {
        (
            Tally { white: white as u32, black: black as u32, drawn: quiet as u32 },
            if quiet >= 10 {
                Some(1)
            } else {
                None
            },
        )
    }
}

impl Tally {
    /// No score yet.
    pub fn new() -> (t: Tally)
        ensures
            t == (Tally { white: 0, black: 0, drawn: 0 }),
    {
        Tally { white: 0, black: 0, drawn: 0 }
    }

    /// Counts a score, and gives the result if it decides the game.
    pub fn judge(&mut self, side: Color, score: i32, ply: u32) -> (r: Option<u8>)
        requires
            old(self).white < 1000,
            old(self).black < 1000,
            old(self).drawn < 1000,
            score > i32::MIN,
        ensures
            (*final(self), r) == judged(*old(self), side, score as int, ply as int),
            r is None ==> final(self).white < 5 && final(self).black < 5 && final(self).drawn < 10,
    {
        let size: i32 = mag_i32(score);
        if size >= WIN_ADJ_SCORE {
            if (side == Color::White && score > 0) || (side == Color::Black && score < 0) {
                self.white = self.white + 1;
                self.black = 0;
            } else {
                self.black = self.black + 1;
                self.white = 0;
            }
        } else {
            self.white = 0;
            self.black = 0;
        }
        if self.white >= WIN_ADJ_COUNT {
            return Some(2);
        }
        if self.black >= WIN_ADJ_COUNT {
            return Some(0);
        }
        if ply >= DRAW_ADJ_MIN_PLY && size <= DRAW_ADJ_SCORE {
            self.drawn = self.drawn + 1;
        } else {
            self.drawn = 0;
        }
        if self.drawn >= DRAW_ADJ_COUNT {
            return Some(1);
        }
        None
    }
}

// ---- Records ----
/// The position is recorded: it is quiet, not too early, its score not too
/// large, and its best move neither takes nor promotes nor gives check.
pub open spec fn recorded(p: Position, best: Move, score: int, ply: int) -> bool {
    &&& !p.in_check()
    &&& mag(score) < 28872
    &&& mag(score) < 10000
    &&& ply >= 8
    &&& !best.captures()
    &&& best.flag() != 5
    &&& !best.promotes()
    &&& !after(p, best).in_check()
}

/// Tests whether a position is recorded.
pub fn is_recorded(pos: &Position, best: Move, score: i32, ply: u32) -> (b: bool)
    requires
        playable(*pos),
        legal(*pos, best),
        pos.clock_room(1),
        score > i32::MIN,
    ensures
        b == recorded(*pos, best, score as int, ply as int),
{
    if pos.is_in_check() || mag_i32(score) >= SCORE_FILTER || ply < MIN_RECORD_PLY
        || best.is_capture() || best.is_ep() || best.is_promotion() {
        return false;
    }
    let mut q: Position = pos.clone();
    let _undo: Option<UndoInfo> = try_move(&mut q, best);
    !q.is_in_check()
}

/// The result of a game as the side to move sees it.
pub open spec fn seen_result(side: int, result: int) -> int {
    if side == 0 {
        result
    } else {
        2 - result
    }
}

/// The records with the result of their game.
pub open spec fn resolved(e: Seq<Seq<u8>>, result: u8) -> Seq<Seq<u8>> {
    Seq::new(
        e.len(),
        |i: int| e[i].update(26, seen_result(e[i][29] as int, result as int) as u8),
    )
}

/// The bytes of records.
pub open spec fn record_texts(v: Seq<Vec<u8>>) -> Seq<Seq<u8>> {
    Seq::new(v.len(), |i: int| v[i]@)
}

/// Writes the result of a game into its records.
pub fn resolve(v: &mut Vec<Vec<u8>>, result: u8)
    requires
        result <= 2,
        forall|i: int| 0 <= i < old(v)@.len() ==> (#[trigger] old(v)@[i])@.len() == 32,
    ensures
        record_texts(final(v)@) == resolved(record_texts(old(v)@), result),
        final(v)@.len() == old(v)@.len(),
        forall|i: int, k: int|
            0 <= i < old(v)@.len() && 0 <= k < 32 && k != 26 ==> (#[trigger] final(v)@[i]@[k])
                == old(v)@[i]@[k],
        forall|i: int|
            0 <= i < old(v)@.len() && old(v)@[i]@[29] == 0 ==> (#[trigger] final(v)@[i])@[26]
                == result,
        forall|i: int|
            0 <= i < old(v)@.len() && old(v)@[i]@[29] != 0 ==> (#[trigger] final(v)@[i])@[26] == 2
                - result,
{
    let ghost e = record_texts(old(v)@);
    let mut i: usize = 0;
    while i < v.len()
        invariant
            i <= v@.len(),
            result <= 2,
            v@.len() == old(v)@.len(),
            e == record_texts(old(v)@),
            forall|k: int| 0 <= k < v@.len() ==> (#[trigger] v@[k])@.len() == 32,
            forall|k: int| 0 <= k < i ==> (#[trigger] v@[k])@ == resolved(e, result)[k],
            forall|k: int| i <= k < v@.len() ==> (#[trigger] v@[k])@ == e[k],
        decreases v@.len() - i,
    {
        let x: u8 = if v[i][29] == 0 {
            result
        } else {
            2 - result
        };
        let mut r: Vec<u8> = Vec::new();
        let mut k: usize = 0;
        while k < 32
            invariant
                k <= 32,
                i < v@.len(),
                v@[i as int]@.len() == 32,
                r@ == v@[i as int]@.take(k as int),
            decreases 32 - k,
        {
            r.push(v[i][k]);
            k = k + 1;
            assert(r@ =~= v@[i as int]@.take(k as int));
        }
        r.set(26, x);
        assert(r@ =~= resolved(e, result)[i as int]);
        v.set(i, r);
        i = i + 1;
    }
    assert(record_texts(v@) =~= resolved(e, result));
    proof {
        assert forall|i: int| 0 <= i < v@.len() implies (#[trigger] v@[i])@ == e[i].update(
            26,
            seen_result(e[i][29] as int, result as int) as u8,
        ) by {
            assert(v@[i]@ == resolved(e, result)[i]);
        }
    }
}

// ---- Games ----
fn copy_hashes(h: &Vec<u64>) -> (c: Vec<u64>)
    ensures
        c@ == h@,
{
    let mut c: Vec<u64> = Vec::new();
    let mut i: usize = 0;
    while i < h.len()
        invariant
            i <= h@.len(),
            c@ == h@.take(i as int),
        decreases h@.len() - i,
    {
        c.push(h[i]);
        i = i + 1;
        assert(c@ =~= h@.take(i as int));
    }
    assert(c@ =~= h@);
    c
}

/// What the two players of a game know.
#[verifier::ext_equal]
pub struct Players {
    pub white: Mind,
    pub black: Mind,
}

/// What a search of a game knows before it begins.
pub open spec fn in_game(s: Mind, hashes: Seq<u64>) -> Mind {
    cleared(Mind { hashes, ..s }, hashes.len() as int)
}

/// What the search of a position of a game comes to.
pub open spec fn game_search(
    s: Mind,
    hashes: Seq<u64>,
    p: Position,
    depth: int,
    soft_nodes: int,
    limit: u64,
) -> Course {
    search_result(in_game(s, hashes), hashes.len() as int, p, depth, soft_nodes, limit)
}

/// The search of the side to move, and what the players know afterwards.
pub open spec fn asked(
    k: Players,
    p: Position,
    hashes: Seq<u64>,
    depth: int,
    soft_nodes: int,
    limit: u64,
) -> (Players, Course) {
    match p.side {
        Color::White => {
            let c = game_search(k.white, hashes, p, depth, soft_nodes, limit);
            (Players { white: c.mind, ..k }, c)
        },
        Color::Black => {
            let c = game_search(k.black, hashes, p, depth, soft_nodes, limit);
            (Players { black: c.mind, ..k }, c)
        },
    }
}

/// Nothing from outside has decided the searches of a player: no tablebase knew a
/// position, and no search was stopped before it was done.
pub open spec fn calm(a: SearchInfo, b: SearchInfo) -> bool {
    b.stops@ == a.stops@
}

/// What searches of a game leave as it is. Stops are only added.
pub open spec fn same_player(a: SearchInfo, b: SearchInfo) -> bool {
    &&& b.wf()
    &&& b.silent == a.silent
    &&& b.nnue == a.nnue
    &&& b.tables == a.tables
    &&& b.tune == a.tune
    &&& b.print_info == a.print_info
    &&& b.stops@ >= a.stops@
}

/// Searches a position of a game with the given hashes.
pub fn search_in_game(info: &mut SearchInfo, pos: &mut Position, hashes: &Vec<u64>, tc: &TimeControl)
    -> (best: Move)
    requires
        old(info).wf(),
        playable(*old(pos)),
        old(pos).clock_room(128),
        tc.infinite || 0 < tc.depth <= MAX_DEPTH,
        tc.depth <= MAX_DEPTH,
    ensures
        *final(pos) == *old(pos),
        same_player(*old(info), *final(info)),
        final(info).hash_history@ == hashes@,
        best.0 != 0 ==> legal(*old(pos), best),
        bounded_score(final(info).root_score as int),
        calm(*old(info), *final(info)) ==> gives(
            *final(info),
            best,
            game_search(
                old(info).mind(),
                hashes@,
                *old(pos),
                depth_limit(*tc),
                tc.soft_nodes as int,
                tc.nodes,
            ),
        ),
{
    info.hash_history = copy_hashes(hashes);
    info.game_history_len = info.hash_history.len();
    assert(hashes@.take(hashes@.len() as int) =~= hashes@);
    info.clear_for_search();
    assert(info.hash_history@.take(hashes@.len() as int) =~= hashes@);
    assert(info.mind() == in_game(old(info).mind(), hashes@));
    let mut tm: TimeManager = TimeManager::new(tc, pos.side == Color::White, Budget::none());
    search(pos, info, &mut tm)
}

fn opening_limits() -> (tc: TimeControl)
    ensures
        tc.depth == 4,
        tc.nodes == 10_000,
        tc.soft_nodes == 0,
        !tc.infinite,
{
    let mut tc: TimeControl = TimeControl::infinite();
    tc.infinite = false;
    tc.depth = 4;
    tc.nodes = 10_000;
    tc
}

pub fn game_limits(soft_nodes: u64) -> (tc: TimeControl)
    ensures
        tc.infinite,
        tc.depth == 0,
        tc.nodes == HARD_NODE_LIMIT,
        tc.soft_nodes == soft_nodes,
{
    let mut tc: TimeControl = TimeControl::infinite();
    tc.nodes = HARD_NODE_LIMIT;
    tc.soft_nodes = soft_nodes;
    tc
}

/// The record is one of a game with this result.
pub open spec fn record_of_game(e: Seq<u8>, result: u8) -> bool {
    exists|p: Position, score: int| #[trigger]
        fits_record(p, score) && e == packed(p, score).update(
            26,
            seen_result(p.side.num(), result as int) as u8,
        )
}

/// The records are those of one game with this result.
pub open spec fn records_of_game(v: Seq<Vec<u8>>, result: u8) -> bool {
    forall|i: int| 0 <= i < v.len() ==> #[trigger] record_of_game(v[i]@, result)
}

/// A position and a score that are recorded.
pub open spec fn fits_record(p: Position, score: int) -> bool {
    playable(p) && can_pack(p) && !p.in_check() && mag(score) < 10000
}

/// An entry before the result is known.
pub open spec fn open_record(e: Seq<u8>) -> bool {
    exists|p: Position, score: int| #[trigger] fits_record(p, score) && e == packed(p, score)
}

/// The records of a game from a position on, after those that there are, and its
/// result. The game ends by its rules, after many moves, or when the scores have
/// decided it.
pub open spec fn data_game(
    k: Players,
    p: Position,
    hashes: Seq<u64>,
    t: Tally,
    ply: int,
    soft_nodes: int,
    kept: Seq<Seq<u8>>,
) -> (Players, Seq<Seq<u8>>, u8)
    decreases 512 - ply,
{
    let h = hashes.push(p.hash);
    let a = asked(k, p, h, 100, soft_nodes, HARD_NODE_LIMIT);
    let best = a.1.best_move;
    let score = a.1.score;
    let j = judged(t, p.side, score, ply);
    if ply >= 512 {
        (k, kept, 1)
    } else if ended(p, h) is Some {
        (k, kept, ended(p, h).unwrap())
    } else if best.0 == 0 {
        (a.0, kept, 1)
    } else if j.1 is Some {
        (a.0, kept, j.1.unwrap())
    } else {
        data_game(
            a.0,
            after(p, best),
            h,
            j.0,
            ply + 1,
            soft_nodes,
            if recorded(p, best, score, ply) && can_pack(p) {
                kept.push(packed(p, score))
            } else {
                kept
            },
        )
    }
}

/// The records of a game, each with the result, and the random state afterwards.
/// An opening without a legal move, or one that a short search finds lost, gives
/// no records.
pub open spec fn data_of_game(
    k: Players,
    book: Option<Book>,
    start: Position,
    r: Rng,
    soft_nodes: int,
) -> (Players, Seq<Seq<u8>>, Rng) {
    let o = opening_of(book, start, r);
    match o.0 {
        None => (k, Seq::empty(), o.1),
        Some(p) => {
            let a = asked(k, p, seq![p.hash], 4, 0, 10_000);
            if mag(a.1.score) > 1000 {
                (a.0, Seq::empty(), o.1)
            } else {
                let t = Tally { white: 0, black: 0, drawn: 0 };
                let g = data_game(a.0, p, Seq::empty(), t, 0, soft_nodes, Seq::empty());
                (g.0, resolved(g.1, g.2), o.1)
            }
        },
    }
}

/// Searches with the memory of the side to move.
#[verifier::rlimit(20)]
pub fn ask(
    pos: &mut Position,
    info_white: &mut SearchInfo,
    info_black: &mut SearchInfo,
    hashes: &Vec<u64>,
    tc: &TimeControl,
) -> (r: (Move, i32, i32))
    requires
        old(info_white).wf(),
        old(info_black).wf(),
        playable(*old(pos)),
        old(pos).clock_room(128),
        tc.infinite || 0 < tc.depth <= MAX_DEPTH,
        tc.depth <= MAX_DEPTH,
    ensures
        *final(pos) == *old(pos),
        same_player(*old(info_white), *final(info_white)),
        same_player(*old(info_black), *final(info_black)),
        r.0.0 != 0 ==> legal(*old(pos), r.0),
        bounded_score(r.1 as int),
        calm(*old(info_white), *final(info_white)) && calm(*old(info_black), *final(info_black)) ==> ({
            let a = asked(
                players(*old(info_white), *old(info_black)),
                *old(pos),
                hashes@,
                depth_limit(*tc),
                tc.soft_nodes as int,
                tc.nodes,
            );
            &&& players(*final(info_white), *final(info_black)) == a.0
            &&& r.0 == a.1.best_move
            &&& r.1 == a.1.score
            &&& r.2 == a.1.completed
        }),
{
    if pos.side == Color::White {
        let best: Move = search_in_game(info_white, pos, hashes, tc);
        (best, info_white.root_score, info_white.completed_depth)
    } else {
        let best: Move = search_in_game(info_black, pos, hashes, tc);
        (best, info_black.root_score, info_black.completed_depth)
    }
}

pub open spec fn players(white: SearchInfo, black: SearchInfo) -> Players {
    Players { white: white.mind(), black: black.mind() }
}

/// Plays a game and gives its records, each with the result of the game. The
/// game ends by its rules, after many moves, or when the scores have decided it.
/// An opening that is lost at once gives no game.
#[verifier::rlimit(60)]
pub fn play_game(
    info_white: &mut SearchInfo,
    info_black: &mut SearchInfo,
    rng: &mut Rng,
    book: Option<&Book>,
    soft_nodes: u64,
) -> (v: Vec<Vec<u8>>)
    requires
        old(info_white).wf(),
        old(info_black).wf(),
        book matches Some(b) ==> b.wf(),
    ensures
        same_player(*old(info_white), *final(info_white)),
        same_player(*old(info_black), *final(info_black)),
        v@.len() <= 512,
        exists|result: u8| result <= 2 && #[trigger] records_of_game(v@, result),
        exists|p: Position| #[trigger]
            is_start(p) && ({
                let g = data_of_game(
                    players(*old(info_white), *old(info_black)),
                    match book {
                        Some(b) => Some(*b),
                        None => None,
                    },
                    p,
                    *old(rng),
                    soft_nodes as int,
                );
                &&& *final(rng) == g.2
                &&& calm(*old(info_white), *final(info_white)) && calm(
                    *old(info_black),
                    *final(info_black),
                ) ==> players(*final(info_white), *final(info_black)) == g.0 && record_texts(v@)
                    == g.1
            }),
{
    let mut v: Vec<Vec<u8>> = Vec::new();
    proof {
        assert(records_of_game(v@, 1u8));
        assert(record_texts(v@) =~= Seq::empty());
    }
    let ghost k0 = players(*info_white, *info_black);
    let opening: Option<Position> = play_opening(rng, book);
    let mut pos: Position = match opening {
        Some(p) => p,
        None => {
            return v;
        },
    };
    let ghost first = pos;
    let mut hashes: Vec<u64> = Vec::new();
    hashes.push(pos.hash);
    assert(hashes@ =~= seq![first.hash]);
    let limits: TimeControl = opening_limits();
    let r: (Move, i32, i32) = ask(&mut pos, info_white, info_black, &hashes, &limits);
    if mag_i32(r.1) > OPENING_VERIFY_LIMIT {
        return v;
    }
    let ghost w1 = *info_white;
    let ghost b1 = *info_black;
    let limits: TimeControl = game_limits(soft_nodes);
    let mut hashes: Vec<u64> = Vec::new();
    assert(hashes@ =~= Seq::empty());
    let mut tally: Tally = Tally::new();
    let mut result: u8 = 1;
    let mut ply: u32 = 0;
    let ghost g = data_game(
        asked(k0, first, seq![first.hash], 4, 0, 10_000).0,
        first,
        Seq::empty(),
        tally,
        0,
        soft_nodes as int,
        Seq::empty(),
    );
    let mut over: bool = false;
    while ply < MAX_GAME_MOVES && !over
        invariant
            !over ==> playable(pos),
            !over ==> pos.clock_room(65000 - ply),
            !over ==> tally.white < 5 && tally.black < 5 && tally.drawn < 10,
            limits.infinite,
            limits.depth == 0,
            limits.soft_nodes == soft_nodes,
            limits.nodes == HARD_NODE_LIMIT,
            same_player(*old(info_white), *info_white),
            same_player(*old(info_black), *info_black),
            same_player(w1, *info_white),
            same_player(b1, *info_black),
            v@.len() <= ply,
            ply <= 512,
            forall|i: int| 0 <= i < v@.len() ==> #[trigger] open_record(v@[i]@),
            result <= 2,
            !over ==> result == 1,
            calm(*old(info_white), *info_white) && calm(*old(info_black), *info_black) ==> g
                == if over {
                (players(*info_white, *info_black), record_texts(v@), result)
            } else {
                data_game(
                    players(*info_white, *info_black),
                    pos,
                    hashes@,
                    tally,
                    ply as int,
                    soft_nodes as int,
                    record_texts(v@),
                )
            },
        decreases 512 - ply, !over as int,
    {
        hashes.push(pos.hash);
        if let Some(r) = game_end(&mut pos, &hashes) {
            result = r;
            over = true;
            continue;
        }
        let r: (Move, i32, i32) = ask(&mut pos, info_white, info_black, &hashes, &limits);
        let best: Move = r.0;
        let score: i32 = r.1;
        if best.0 == 0 {
            over = true;
            continue;
        }
        if let Some(r) = tally.judge(pos.side, score, ply) {
            result = r;
            over = true;
            continue;
        }
        let ghost kept = record_texts(v@);
        if is_recorded(&pos, best, score, ply) && popcount(pos.colors[0] | pos.colors[1]) <= 32 {
            proof {
                sound_facts(pos);
                assert(fits_record(pos, score as int));
            }
            v.push(pack_position(&pos, score));
            assert(open_record(v@[v@.len() - 1]@));
            assert(record_texts(v@) =~= kept.push(packed(pos, score as int)));
        }
        let ghost p0 = pos;
        let undo: Option<UndoInfo> = try_move(&mut pos, best);
        proof {
            clocks_after(p0, best, pos, undo->0, 65000 - ply);
        }
        ply = ply + 1;
    }
    let ghost before = record_texts(v@);
    proof {
        assert forall|i: int| 0 <= i < v@.len() implies (#[trigger] v@[i])@.len() == 32 by {
            record_len(v@[i]@);
        }
    }
    let ghost kept = v@;
    resolve(&mut v, result);
    proof {
        assert(v@.len() == kept.len()) by {
            assert(record_texts(v@).len() == before.len());
        }
        assert forall|i: int| 0 <= i < v@.len() implies #[trigger] record_of_game(
            v@[i]@,
            result,
        ) by {
            assert(record_texts(v@)[i] == v@[i]@);
            assert(before[i] == kept[i]@);
            assert(open_record(kept[i]@));
            resolved_record(kept[i]@, result);
        }
        assert(records_of_game(v@, result));
    }
    v
}

proof fn record_len(e: Seq<u8>)
    requires
        open_record(e),
    ensures
        e.len() == 32,
{
    let (p, score) = choose|p: Position, score: int| #[trigger]
        fits_record(p, score) && e == packed(p, score);
    sound_facts(p);
    crate::records::record_roundtrip(p, score);
}

proof fn resolved_record(e: Seq<u8>, result: u8)
    requires
        open_record(e),
    ensures
        record_of_game(e.update(26, seen_result(e[29] as int, result as int) as u8), result),
{
    let (p, score) = choose|p: Position, score: int| #[trigger]
        fits_record(p, score) && e == packed(p, score);
    sound_facts(p);
    crate::records::side_byte(p, score);
}

// ---- Between games ----
/// What a player knows before a game: the histories of moves are forgotten, and
/// every hundred games the table is. The answers to the move before the last, and
/// the corrections of the evaluation, stay.
pub open spec fn rested(s: Mind, game: int) -> Mind {
    let none = TTEntry::empty_entry();
    Mind {
        table: if game % 100 == 0 {
            Seq::new(s.table.len(), |i: int| TTBucket { first: none, second: none })
        } else {
            s.table
        },
        gen: if game % 100 == 0 {
            0
        } else {
            s.gen
        },
        history: Seq::new(8192, |i: int| 0i32),
        killers: Seq::new(
            MAX_PLY as nat,
            |i: int| KillerPair { first: Move(0), second: Move(0) },
        ),
        counters: Seq::new(768, |i: int| Move(0)),
        cont: Seq::new(147456, |i: int| 0i32),
        captures: Seq::new(s.captures.len(), |i: int| 0i32),
        ..s
    }
}

/// Prepares a player for a game, which is the one with this number.
pub fn rest(info: &mut SearchInfo, game: u32)
    requires
        old(info).wf(),
    ensures
        same_player(*old(info), *final(info)),
        final(info).mind() == rested(old(info).mind(), game as int),
{
    if game % 100 == 0 {
        info.tt.clear();
    }
    info.history.clear();
    info.killers.clear();
    info.counter_moves.clear();
    info.cont_history.clear();
    info.capture_history.clear();
    assert(info.mind() =~= rested(old(info).mind(), game as int));
}

// ---- Sharing the work ----
/// How many of some games a thread plays.
pub open spec fn share(games: int, threads: int, id: int) -> int {
    games / threads + if id < games % threads {
        1int
    } else {
        0
    }
}

/// How many of some games a thread plays.
pub fn games_for(games: u32, threads: u32, id: u32) -> (n: u32)
    requires
        threads > 0,
        id < threads,
    ensures
        n == share(games as int, threads as int, id as int),
{
    let base: u32 = games / threads;
    if id < games % threads {
        proof {
            assert(base < games) by (nonlinear_arith)
                requires
                    base == games / threads,
                    games % threads > 0,
                    threads > 0,
            ;
        }
        base + 1
    } else {
        base
    }
}

/// The games of the first threads.
pub open spec fn shared_out(games: int, threads: int, n: int) -> int
    decreases n,
{
    if n <= 0 {
        0
    } else {
        shared_out(games, threads, n - 1) + share(games, threads, n - 1)
    }
}

/// All games are played, and none twice.
pub proof fn shares_add_up(games: int, threads: int)
    requires
        games >= 0,
        threads > 0,
    ensures
        shared_out(games, threads, threads) == games,
{
    shares_so_far(games, threads, threads);
    vstd::arithmetic::div_mod::lemma_fundamental_div_mod(games, threads);
    vstd::arithmetic::div_mod::lemma_mod_bound(games, threads);
}

proof fn shares_so_far(games: int, threads: int, n: int)
    requires
        games >= 0,
        threads > 0,
        0 <= n <= threads,
    ensures
        shared_out(games, threads, n) == n * (games / threads) + if n < games
            % threads {
            n
        } else {
            games % threads
        },
    decreases n,
{
    vstd::arithmetic::div_mod::lemma_mod_bound(games, threads);
    let q = games / threads;
    if n == 0 {
        assert(n * q == 0) by (nonlinear_arith)
            requires
                n == 0,
        ;
    } else {
        shares_so_far(games, threads, n - 1);
        assert((n - 1) * q + q == n * q) by (nonlinear_arith);
    }
}

} // verus!
