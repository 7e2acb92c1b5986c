//! Checks of a running engine: book moves and searches with known answers.

use crate::board::{after, Position};
use crate::book::{chosen_move, Book};
use crate::decide::MAX_DEPTH;
use crate::embedded::spelled;
use crate::fen::first_named;
use crate::game::{is_start, named_is_member};
use crate::model::{cleared, search_result};
use crate::play::{clocks_after, try_move};
use crate::rules::{legal, legal_moves, legal_moves_are_legal, playable, sound_facts};
use crate::search::{gives, same_setup, search, SearchInfo};
use crate::text::{same_chars, split_words, texts, words};
use crate::time::{Budget, TimeControl, TimeManager};
use crate::types::{chars_of, Color, Move, UndoInfo};
use vstd::prelude::*;

verus! {

/// How a check ended.
#[derive(Clone, Copy, PartialEq, Eq, Structural, Debug)]
pub enum Verdict {
    Passed(Move),
    Failed(Move),
    /// The book has no move.
    Skipped,
}

/// The verdict on a move that should be one of some.
pub open spec fn verdict_on(mv: Move, expected: Seq<Seq<char>>) -> Verdict {
    if expected.contains(mv.uci()) {
        Verdict::Passed(mv)
    } else {
        Verdict::Failed(mv)
    }
}

/// The position after the moves that texts name; texts that name none are passed over.
pub open spec fn after_named(p: Position, t: Seq<Seq<char>>) -> Position
    decreases t.len(),
{
    if t.len() == 0 {
        p
    } else {
        match first_named(legal_moves(p), t[0]) {
            Some(m) => after_named(after(p, m), t.drop_first()),
            None => after_named(p, t.drop_first()),
        }
    }
}

fn is_expected(mv: Move, expected: &[&str]) -> (b: bool)
    ensures
        b == spelled(expected@).contains(mv.uci()),
{
    let name: Vec<char> = chars_of(mv.to_uci().as_str());
    let mut i: usize = 0;
    while i < expected.len()
        invariant
            i <= expected@.len(),
            name@ == mv.uci(),
            forall|k: int| 0 <= k < i ==> (#[trigger] expected@[k])@ != mv.uci(),
        decreases expected@.len() - i,
    {
        if same_chars(&name, &chars_of(expected[i])) {
            assert(spelled(expected@)[i as int] == mv.uci());
            return true;
        }
        i = i + 1;
    }
    proof {
        if spelled(expected@).contains(mv.uci()) {
            let k = choose|k: int|
                0 <= k < spelled(expected@).len() && spelled(expected@)[k] == mv.uci();
            assert(expected@[k]@ == mv.uci());
        }
    }
    false
}

/// Gives the verdict on a move.
pub fn judge(mv: Move, expected: &[&str]) -> (v: Verdict)
    ensures
        v == verdict_on(mv, spelled(expected@)),
{
    if is_expected(mv, expected) {
        Verdict::Passed(mv)
    } else {
        Verdict::Failed(mv)
    }
}

fn play_known(moves: &str) -> (pos: Position)
    requires
        words(moves@).len() <= 60000,
    ensures
        playable(pos),
        pos.clock_room(1),
        exists|p: Position| #[trigger] is_start(p) && pos == after_named(p, words(moves@)),
{
    let mut pos: Position = Position::startpos();
    let tokens: Vec<Vec<char>> = split_words(&chars_of(moves));
    let ghost start = pos;
    let ghost all = texts(tokens@);
    let n: usize = tokens.len();
    assert(all.skip(0) =~= all);
    let mut i: usize = 0;
    while i < n
        invariant
            n == tokens@.len(),
            i <= n <= 60000,
            all == texts(tokens@),
            playable(pos),
            pos.clock_room(n - i + 1),
            after_named(pos, all.skip(i as int)) == after_named(start, all),
        decreases n - i,
    {
        let ghost rest = all.skip(i as int);
        assert(rest[0] == tokens@[i as int]@);
        assert(rest.drop_first() =~= all.skip(i + 1));
        if let Some(mv) = pos.named_move(&tokens[i]) {
            proof {
                sound_facts(pos);
                named_is_member(legal_moves(pos), rest[0]);
                legal_moves_are_legal(pos, mv);
            }
            let ghost p0 = pos;
            let undo: Option<UndoInfo> = try_move(&mut pos, mv);
            proof {
                clocks_after(p0, mv, pos, undo->0, n - i + 1);
            }
        }
        i = i + 1;
    }
    assert(all.skip(i as int) =~= Seq::empty());
    assert(is_start(start));
    pos
}

/// Checks the move of a book after moves from the initial position.
pub fn check_book(book: &Book, moves: &str, expected: &[&str], best_only: bool) -> (v: Verdict)
    requires
        book.wf(),
        words(moves@).len() <= 60000,
    ensures
        exists|p: Position| #[trigger]
            is_start(p) && ({
                let q = after_named(p, words(moves@));
                &&& v matches Verdict::Passed(m) ==> legal(q, m) && spelled(expected@).contains(
                    m.uci(),
                )
                &&& v matches Verdict::Failed(m) ==> legal(q, m) && !spelled(expected@).contains(
                    m.uci(),
                )
                &&& v == match chosen_move(
                    q,
                    book.offers(q),
                    q.hash as int,
                    best_only,
                ) {
                    Some(m) => verdict_on(m, spelled(expected@)),
                    None => Verdict::Skipped,
                }
            }),
{
    let mut pos: Position = play_known(moves);
    let ghost p = choose|p: Position| #[trigger]
        is_start(p) && pos == after_named(p, words(moves@));
    assert(is_start(p));
    let rng: u64 = pos.hash;
    match book.probe(&mut pos, rng, best_only) {
        Some(m) => judge(m, expected),
        None => Verdict::Skipped,
    }
}

/// Checks the move of a search to a depth.
pub fn check_search(info: &mut SearchInfo, pos: &mut Position, depth: i32, expected: &[&str]) -> (v:
    Verdict)
    requires
        old(info).wf(),
        playable(*old(pos)),
        old(pos).clock_room(128),
        0 < depth <= MAX_DEPTH,
    ensures
        *final(pos) == *old(pos),
        final(info).wf(),
        same_setup(SearchInfo { silent: false, ..*old(info) }, *final(info)),
        match v {
            Verdict::Passed(m) => spelled(expected@).contains(m.uci()) && (m.0 != 0 ==> legal(
                *old(pos),
                m,
            )),
            Verdict::Failed(m) => !spelled(expected@).contains(m.uci()) && (m.0 != 0 ==> legal(
                *old(pos),
                m,
            )),
            Verdict::Skipped => false,
        },
        final(info).completed_depth <= depth,
        old(info).undisturbed(*final(info)) ==> ({
            let n = old(info).game_history_len as int;
            let c = search_result(cleared(old(info).mind(), n), n, *old(pos), depth as int, 0, 0);
            v == verdict_on(c.best_move, spelled(expected@)) && gives(*final(info), c.best_move, c)
        }),
{
    let mut tc: TimeControl = TimeControl::infinite();
    tc.depth = depth;
    info.clear_for_search();
    let mut tm: TimeManager = TimeManager::new(&tc, pos.side == Color::White, Budget::none());
    info.silent = true;
    let best: Move = search(pos, info, &mut tm);
    info.silent = false;
    judge(best, expected)
}

} // verus!
