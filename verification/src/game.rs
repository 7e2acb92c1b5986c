//! Games: a starting position and the moves that are played from it.

use crate::board::{after, position_unique, Position};
use crate::fen::{
    described, fields_are_distinct, fields_are_readable, fields_error, fields_fit, first_named,
    placement_distinct, start_board,
};
use crate::play::{legal_line, try_move};
use crate::rules::{legal, legal_moves, legal_moves_are_legal, playable, sound_facts};
use crate::text::{spells, split_words, texts, words};
use crate::types::{chars_of, Color, Move, UndoInfo, NO_SQ};
use vstd::prelude::*;

verus! {

// ---- Starting positions ----
/// The text stands for the initial position.
pub open spec fn names_start(fen: Seq<char>) -> bool {
    fen.len() == 0 || fen == "startpos"@
}

/// The initial position.
pub open spec fn is_start(p: Position) -> bool {
    &&& playable(p)
    &&& p.mailbox@ == start_board()
    &&& p.side == Color::White
    &&& p.castling.0 == 15
    &&& p.ep_square == NO_SQ
    &&& p.halfmove_clock == 0
    &&& p.fullmove == 1
}

/// Why a text is no FEN.
pub open spec fn fen_error(fen: Seq<char>) -> Option<Seq<char>> {
    fields_error(words(fen))
}

/// The fields describe the position, whole and with every part in agreement.
pub open spec fn fields_describe(f: Seq<Seq<char>>, p: Position) -> bool {
    &&& fields_fit(f)
    &&& fields_error(f) is None
    &&& placement_distinct(f[0])
    &&& described(f, p)
    &&& p.wf()
}

/// The text describes the position.
pub open spec fn describes(fen: Seq<char>, p: Position) -> bool {
    fields_describe(words(fen), p)
}

/// Where a game starts.
pub enum Start {
    Ready(Position),
    /// The text is no FEN.
    Refused(&'static str),
    /// The text is a FEN, but its position cannot be played on.
    Unplayable,
}

/// What reading fields gives.
pub open spec fn start_of(f: Seq<Seq<char>>, r: Start) -> bool {
    match r {
        Start::Ready(p) => playable(p) && fields_describe(f, p),
        Start::Refused(e) => fields_fit(f) && fields_error(f) == Some(e@),
        Start::Unplayable => !fields_fit(f) || fields_error(f) is None && (!placement_distinct(f[0])
            || exists|p: Position| #[trigger] fields_describe(f, p) && !playable(p)),
    }
}

/// Reads a position from the fields of its FEN.
pub fn read_start(parts: &Vec<Vec<char>>) -> (r: Start)
    ensures
        start_of(texts(parts@), r),
{
    if !fields_are_readable(parts) {
        return Start::Unplayable;
    }
    match Position::from_fields(parts) {
        Ok(p) => {
            if !fields_are_distinct(parts) {
                return Start::Unplayable;
            }
            assert(fields_describe(texts(parts@), p));
            if p.is_playable() {
                Start::Ready(p)
            } else {
                Start::Unplayable
            }
        },
        Err(e) => Start::Refused(e),
    }
}

/// Reads a starting position: a FEN, or nothing or "startpos" for the initial
/// position.
pub fn start_position(fen: &str) -> (r: Start)
    ensures
        if names_start(fen@) {
            r matches Start::Ready(p) && is_start(p)
        } else {
            start_of(words(fen@), r)
        },
{
    let t: Vec<char> = chars_of(fen);
    if t.len() == 0 || spells(&t, "startpos") {
        return Start::Ready(Position::startpos());
    }
    read_start(&split_words(&t))
}

/// Fields describe one position.
pub proof fn describes_once(f: Seq<Seq<char>>, p: Position, q: Position)
    requires
        fields_describe(f, p),
        fields_describe(f, q),
    ensures
        p == q,
{
    assert(p.mailbox@ =~= q.mailbox@);
    position_unique(p, q);
}

/// There is one initial position.
pub proof fn start_once(p: Position, q: Position)
    requires
        is_start(p),
        is_start(q),
    ensures
        p == q,
{
    sound_facts(p);
    sound_facts(q);
    position_unique(p, q);
}

// ---- Playing moves ----
/// The moves that texts name, one after the other, up to the first that names none.
pub open spec fn named_line(p: Position, t: Seq<Seq<char>>) -> Seq<Move>
    decreases t.len(),
{
    if t.len() == 0 {
        Seq::empty()
    } else {
        match first_named(legal_moves(p), t[0]) {
            Some(m) => seq![m] + named_line(after(p, m), t.drop_first()),
            None => Seq::empty(),
        }
    }
}

/// The position after moves.
pub open spec fn after_line(p: Position, l: Seq<Move>) -> Position
    decreases l.len(),
{
    if l.len() == 0 {
        p
    } else {
        after_line(after(p, l[0]), l.drop_first())
    }
}

/// The hashes of a position and of those after each move.
pub open spec fn line_hashes(p: Position, l: Seq<Move>) -> Seq<u64>
    decreases l.len(),
{
    if l.len() == 0 {
        seq![p.hash]
    } else {
        seq![p.hash] + line_hashes(after(p, l[0]), l.drop_first())
    }
}

/// A game that has been played to a position.
pub struct Game {
    pub pos: Position,
    /// The hashes of all positions of the game.
    pub hashes: Vec<u64>,
    /// How many moves were played.
    pub played: usize,
}

/// A move found by its name is one of the list.
pub proof fn named_is_member(l: Seq<Move>, t: Seq<char>)
    ensures
        first_named(l, t) matches Some(m) ==> l.contains(m),
    decreases l.len(),
{
    if l.len() > 0 {
        assert(l.contains(l[0]));
        named_is_member(l.skip(1), t);
        if let Some(m) = first_named(l.skip(1), t) {
            let i = choose|i: int| 0 <= i < l.skip(1).len() && l.skip(1)[i] == m;
            assert(l[i + 1] == m);
        }
    }
}

/// One more move at the end of a line.
proof fn line_grows(p: Position, l: Seq<Move>, m: Move)
    ensures
        after_line(p, l.push(m)) == after(after_line(p, l), m),
        line_hashes(p, l.push(m)) == line_hashes(p, l).push(after(after_line(p, l), m).hash),
        legal_line(p, l) && legal(after_line(p, l), m) ==> legal_line(p, l.push(m)),
    decreases l.len(),
{
    if l.len() == 0 {
        reveal_with_fuel(after_line, 2);
        reveal_with_fuel(line_hashes, 2);
        reveal_with_fuel(legal_line, 2);
        assert(l.push(m).drop_first() =~= Seq::empty());
        assert(line_hashes(p, l.push(m)) =~= line_hashes(p, l).push(after(p, m).hash));
    } else {
        line_grows(after(p, l[0]), l.drop_first(), m);
        assert(l.push(m).drop_first() =~= l.drop_first().push(m));
        assert(line_hashes(p, l.push(m)) =~= line_hashes(p, l).push(
            after(after_line(p, l), m).hash,
        ));
    }
}

/// Plays the moves that texts name, up to the first that names no legal move.
pub fn play_named(start: &Position, moves: &Vec<Vec<char>>) -> (g: Game)
    requires
        playable(*start),
        start.clock_room(moves@.len() as int),
    ensures
        ({
            let l = named_line(*start, texts(moves@));
            &&& g.pos == after_line(*start, l)
            &&& g.hashes@ == line_hashes(*start, l)
            &&& g.played == l.len()
            &&& g.played <= moves@.len()
            &&& playable(g.pos)
            &&& legal_line(*start, l)
            &&& g.pos.halfmove_clock <= start.halfmove_clock + l.len()
            &&& g.pos.fullmove <= start.fullmove + l.len()
        }),
{
    let mut pos: Position = start.clone();
    let mut hashes: Vec<u64> = Vec::new();
    hashes.push(pos.hash);
    let mut i: usize = 0;
    let ghost all = texts(moves@);
    let ghost line = named_line(*start, all);
    let ghost mut done: Seq<Move> = Seq::empty();
    proof {
        assert(all.skip(0) =~= all);
        assert(done + named_line(pos, all) =~= line);
    }
    while i < moves.len()
        invariant
            i <= moves@.len(),
            all == texts(moves@),
            line == named_line(*start, all),
            playable(pos),
            pos.clock_room(moves@.len() - i),
            pos.halfmove_clock <= start.halfmove_clock + i,
            pos.fullmove <= start.fullmove + i,
            done.len() == i,
            legal_line(*start, done),
            pos == after_line(*start, done),
            hashes@ == line_hashes(*start, done),
            done + named_line(pos, all.skip(i as int)) == line,
        decreases moves@.len() - i,
    {
        let ghost rest = all.skip(i as int);
        assert(rest[0] == moves@[i as int]@);
        assert(rest.drop_first() =~= all.skip(i + 1));
        let mv: Move = match pos.named_move(&moves[i]) {
            Some(m) => m,
            None => {
                assert(done =~= line);
                return Game { pos, hashes, played: i };
            },
        };
        let ghost p0 = pos;
        proof {
            sound_facts(pos);
            named_is_member(legal_moves(pos), rest[0]);
            legal_moves_are_legal(pos, mv);
            line_grows(*start, done, mv);
        }
        let _undo: Option<UndoInfo> = try_move(&mut pos, mv);
        hashes.push(pos.hash);
        proof {
            let tail = named_line(pos, all.skip(i + 1));
            assert(named_line(p0, rest) == seq![mv] + tail);
            assert(done.push(mv) + tail =~= line);
            done = done.push(mv);
        }
        i = i + 1;
    }
    proof {
        assert(all.skip(i as int) =~= Seq::empty());
        assert(done =~= line);
    }
    Game { pos, hashes, played: i }
}

} // verus!
