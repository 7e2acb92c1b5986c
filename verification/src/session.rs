//! A session: the game, the settings and what the commands do to them.

use crate::board::{after, Position};
use crate::book::{encode_poly_move, poly_code, poly_hash, polyglot_hash};
use crate::decide::{decisive, is_mate_score, mate_in, mate_moves, MATE_IN_MAX};
use crate::embedded::{EmbeddedEngine, EmbeddedLimits};
use crate::expbook::{ExpEntry, EXP_FLAG_VALIDATED, EXP_SCORE_NONE, EXP_SOURCE_ENGINE};
use crate::fen::{fields_error, fields_fit};
use crate::game::{
    after_line, fields_describe, is_start, line_hashes, named_line, play_named, read_start,
    start_of, Game, Start,
};
use crate::model::fresh_mind;
use crate::movegen::generate_legal;
use crate::num::{at_least, clamped, mag, mag_i32};
use crate::ordering::{Correction, KillerPair};
use crate::play::{legal_line, try_move};
use crate::rules::{legal, legal_moves, legal_moves_are_legal, playable, sound_facts};
use crate::search::{bounded_score, SearchInfo};
use crate::tablebase::{default_tablebases, Tablebases};
use crate::text::{decimal, push_decimal, push_signed, push_text, signed_decimal, spells, texts};
use crate::time::Budget;
use crate::tt::TTable;
use crate::tune::NMP_DEPTH_DIV;
use crate::types::{Move, MoveList, UndoInfo};
use crate::uci::{GoCommand, Setting};
use vstd::prelude::*;

verus! {

/// A session with a user interface.
pub struct Session {
    pub engine: EmbeddedEngine,
    pub pos: Position,
    /// How many moves of the game have been played.
    pub game_ply: u32,
    pub threads: usize,
    /// Searches are written to the experience file.
    pub learn: bool,
    /// The least depth of a search that is written.
    pub exp_min_depth: i32,
    /// Searches may run on the opponent's clock.
    pub ponder_allowed: bool,
}

impl Session {
    pub open spec fn wf(&self) -> bool {
        &&& self.engine.wf()
        &&& playable(self.pos)
        &&& self.pos.clock_room(128)
    }

    /// A session at the initial position, with a table of 64 MB.
    pub fn new(seed: u64) -> (s: Session)
        ensures
            s.wf(),
            is_start(s.pos),
            s.game_ply == 0,
            s.threads == 1,
            !s.learn,
            s.exp_min_depth == 16,
            s.ponder_allowed,
            s.engine.exp is None,
            s.engine.book is None,
            !s.engine.play_from_exp,
            !s.engine.own_book,
            s.engine.best_book_move,
            s.engine.book_variety == 0,
            s.engine.exp_rng == seed | 1,
            s.engine.info.tt.empty_of(64),
            s.engine.info.mind() == fresh_mind(s.engine.info.tt),
            s.engine.info.game_history_len == 0,
            s.engine.info.tables == default_tablebases(),
            s.engine.info.stops@ == 0,
            !s.engine.info.silent,
            s.engine.info.print_info,
    {
        Session {
            engine: EmbeddedEngine {
                info: SearchInfo::new(TTable::new_shared(64)),
                exp: None,
                book: None,
                play_from_exp: false,
                own_book: false,
                best_book_move: true,
                book_variety: 0,
                exp_rng: seed | 1,
            },
            pos: Position::startpos(),
            game_ply: 0,
            threads: 1,
            learn: false,
            exp_min_depth: 16,
            ponder_allowed: true,
        }
    }

    // ---- Settings ----
    /// Takes over a setting. Files are left to the caller, except that a book
    /// without a name is put away.
    pub fn apply(&mut self, s: &Setting)
        requires
            old(self).wf(),
            *s matches Setting::Hash(mb) ==> clamped(mb as int, 1, 65536) * 1048576 <= usize::MAX,
            *s matches Setting::Tune { param, value } ==> param < 25 && crate::tune::least_value(
                param as int,
            ) <= value <= crate::tune::largest_value(param as int),
        ensures
            final(self).wf(),
            changed_by(*old(self), *s, *final(self)),
    {
        match s {
            Setting::Threads(n) => {
                self.threads = *n;
            },
            Setting::OwnBook(b) => {
                self.engine.own_book = *b;
            },
            Setting::BestBookMove(b) => {
                self.engine.best_book_move = *b;
            },
            Setting::BookFile(None) => {
                self.engine.book = None;
            },
            Setting::ExpFile(None) => {
                self.engine.exp = None;
            },
            Setting::PlayFromExp(b) => {
                self.engine.play_from_exp = *b;
            },
            Setting::LearnDuringPlay(b) => {
                self.learn = *b;
            },
            Setting::ExpMinSaveDepth(d) => {
                self.exp_min_depth = *d;
            },
            Setting::BookVariety(v) => {
                self.engine.book_variety = *v;
            },
            Setting::Ponder(b) => {
                self.ponder_allowed = *b;
            },
            _ => {
                set_search(&mut self.engine.info, s);
            },
        }
    }
}

/// Takes over a setting of the search.
fn set_search(info: &mut SearchInfo, s: &Setting)
    requires
        old(info).wf(),
        *s matches Setting::Hash(mb) ==> clamped(mb as int, 1, 65536) * 1048576 <= usize::MAX,
        *s matches Setting::Tune { param, value } ==> param < 25 && crate::tune::least_value(
            param as int,
        ) <= value <= crate::tune::largest_value(param as int),
    ensures
        final(info).wf(),
        search_set_by(*old(info), *s, *final(info)),
{
    match s {
        Setting::Hash(mb) => {
            let size: usize = if *mb < 1 {
                1
            } else if *mb > 65536 {
                65536
            } else {
                *mb
            };
            info.tt = TTable::new_shared(size);
        },
        Setting::SyzygyProbeDepth(d) => {
            info.tables.set_probe_depth(*d);
        },
        Setting::SyzygyProbeLimit(l) => {
            info.tables.set_probe_limit(*l);
        },
        Setting::Syzygy50MoveRule(b) => {
            info.tables.set_50move_rule(*b);
        },
        Setting::LongTimeNmp(b) => {
            crate::tune::set(
                &mut info.tune,
                NMP_DEPTH_DIV,
                if *b {
                    5
                } else {
                    6
                },
            );
        },
        Setting::Tune { param, value } => {
            crate::tune::set(&mut info.tune, *param, *value);
        },
        _ => {},
    }
}

/// A search before and after a setting.
pub open spec fn search_set_by(a: SearchInfo, s: Setting, b: SearchInfo) -> bool {
    match s {
        Setting::Hash(mb) => b == (SearchInfo { tt: b.tt, ..a }) && b.tt.empty_of(
            clamped(mb as int, 1, 65536),
        ),
        Setting::SyzygyProbeDepth(d) => b == (SearchInfo {
            tables: Tablebases { probe_depth: d, ..a.tables },
            ..a
        }),
        Setting::SyzygyProbeLimit(l) => b == (SearchInfo {
            tables: Tablebases { probe_limit: l, ..a.tables },
            ..a
        }),
        Setting::Syzygy50MoveRule(v) => b == (SearchInfo {
            tables: Tablebases { use_50move: v, ..a.tables },
            ..a
        }),
        Setting::LongTimeNmp(v) => tuned_to(
            a,
            4,
            if v {
                5
            } else {
                6
            },
            b,
        ),
        Setting::Tune { param, value } => tuned_to(a, param as int, value, b),
        _ => b == a,
    }
}

/// The session before and after a setting.
pub open spec fn changed_by(a: Session, s: Setting, b: Session) -> bool {
    let e = a.engine;
    match s {
        Setting::Threads(n) => b == (Session { threads: n, ..a }),
        Setting::OwnBook(v) => b == (Session {
            engine: EmbeddedEngine { own_book: v, ..e },
            ..a
        }),
        Setting::BestBookMove(v) => b == (Session {
            engine: EmbeddedEngine { best_book_move: v, ..e },
            ..a
        }),
        Setting::BookFile(None) => b == (Session {
            engine: EmbeddedEngine { book: None, ..e },
            ..a
        }),
        Setting::ExpFile(None) => b == (Session { engine: EmbeddedEngine { exp: None, ..e }, ..a }),
        Setting::PlayFromExp(v) => b == (Session {
            engine: EmbeddedEngine { play_from_exp: v, ..e },
            ..a
        }),
        Setting::LearnDuringPlay(v) => b == (Session { learn: v, ..a }),
        Setting::ExpMinSaveDepth(d) => b == (Session { exp_min_depth: d, ..a }),
        Setting::BookVariety(v) => b == (Session {
            engine: EmbeddedEngine { book_variety: v, ..e },
            ..a
        }),
        Setting::Ponder(v) => b == (Session { ponder_allowed: v, ..a }),
        _ => search_set_by(e.info, s, b.engine.info) && b == (Session {
            engine: EmbeddedEngine { info: b.engine.info, ..e },
            ..a
        }),
    }
}

/// A search after one of its parameters has got a value.
pub open spec fn tuned_to(a: SearchInfo, param: int, value: i32, b: SearchInfo) -> bool {
    &&& b.tune.values@ == a.tune.values@.update(param, value)
    &&& b == (SearchInfo { tune: b.tune, ..a })
}

// ---- Games ----
/// The first word from `i` on that is "moves".
pub open spec fn moves_from(t: Seq<Seq<char>>, i: int) -> int
    decreases t.len() - i,
{
    if i >= t.len() || t[i] == "moves"@ {
        i
    } else {
        moves_from(t, i + 1)
    }
}

/// The fields of the FEN in a "position" command.
pub open spec fn fen_fields(t: Seq<Seq<char>>) -> Seq<Seq<char>> {
    t.subrange(2, moves_from(t, 2))
}

/// Where the word "moves" is expected.
pub open spec fn moves_index(t: Seq<Seq<char>>) -> int {
    if t[1] == "startpos"@ {
        2
    } else if t[1] == "fen"@ {
        moves_from(t, 2)
    } else {
        1
    }
}

/// The moves of a "position" command.
pub open spec fn moves_of(t: Seq<Seq<char>>) -> Seq<Seq<char>> {
    let i = moves_index(t);
    if i < t.len() && t[i] == "moves"@ {
        t.skip(i + 1)
    } else {
        Seq::empty()
    }
}

/// The position before the moves: the initial one, that of the FEN, or the one
/// that the session is at.
pub open spec fn base_of(t: Seq<Seq<char>>, at: Position, p: Position) -> bool {
    if t[1] == "startpos"@ {
        is_start(p)
    } else if t[1] == "fen"@ {
        if fields_fit(fen_fields(t)) && fields_error(fen_fields(t)) is Some {
            p == at
        } else {
            fields_describe(fen_fields(t), p) && playable(p)
        }
    } else {
        p == at
    }
}

/// What became of a "position" command.
pub enum Placed {
    /// The moves were played up to the first that is none, which is the one with
    /// this index. A FEN with an error leaves the position where it was.
    Played { fen_error: Option<&'static str>, bad_move: Option<usize> },
    /// The position cannot be played on.
    Unplayable,
}

/// Words from an index on.
fn words_from(tokens: &Vec<Vec<char>>, from: usize, to: usize) -> (v: Vec<Vec<char>>)
    requires
        from <= to <= tokens@.len(),
    ensures
        texts(v@) == texts(tokens@).subrange(from as int, to as int),
        v@.len() == to - from,
{
    let mut v: Vec<Vec<char>> = Vec::new();
    let mut i: usize = from;
    while i < to
        invariant
            from <= i <= to <= tokens@.len(),
            v@.len() == i - from,
            forall|k: int| 0 <= k < i - from ==> (#[trigger] v@[k])@ == tokens@[from + k]@,
        decreases to - i,
    {
        let mut w: Vec<char> = Vec::new();
        let mut k: usize = 0;
        while k < tokens[i].len()
            invariant
                i < tokens@.len(),
                k <= tokens@[i as int]@.len(),
                w@ == tokens@[i as int]@.take(k as int),
            decreases tokens@[i as int]@.len() - k,
        {
            w.push(tokens[i][k]);
            k = k + 1;
            assert(w@ =~= tokens@[i as int]@.take(k as int));
        }
        assert(w@ =~= tokens@[i as int]@);
        v.push(w);
        i = i + 1;
    }
    assert(texts(v@) =~= texts(tokens@).subrange(from as int, to as int));
    v
}

fn find_moves(tokens: &Vec<Vec<char>>) -> (i: usize)
    requires
        tokens@.len() >= 2,
    ensures
        i == moves_from(texts(tokens@), 2),
        2 <= i <= tokens@.len(),
{
    let mut i: usize = 2;
    let ghost t = texts(tokens@);
    while i < tokens.len() && !spells(&tokens[i], "moves")
        invariant
            2 <= i <= tokens@.len(),
            t == texts(tokens@),
            moves_from(t, i as int) == moves_from(t, 2),
        decreases tokens@.len() - i,
    {
        assert(t[i as int] == tokens@[i as int]@);
        i = i + 1;
    }
    proof {
        if i < tokens@.len() {
            assert(t[i as int] == tokens@[i as int]@);
        }
    }
    i
}

impl Session {
    /// Begins a new game: the initial position, and nothing learnt.
    pub fn new_game(&mut self)
        requires
            old(self).wf(),
        ensures
            final(self).wf(),
            is_start(final(self).pos),
            final(self).game_ply == 0,
            final(self).engine.info.hash_history@.len() == 0,
            final(self).engine.info.game_history_len == 0,
            final(self).engine.info.tt.gen == 0,
            forall|k: int|
                0 <= k < final(self).engine.info.tt.buckets@.len()
                    ==> #[trigger] final(self).engine.info.tt.buckets@[k] == (crate::tt::TTBucket {
                    first: crate::tt::TTEntry::empty_entry(),
                    second: crate::tt::TTEntry::empty_entry(),
                }),
            forall|k: int|
                0 <= k < 8192 ==> #[trigger] final(self).engine.info.history.table@[k] == 0,
            forall|k: int|
                0 <= k < 147456 ==> #[trigger] final(self).engine.info.cont_history.table@[k] == 0,
            forall|k: int|
                0 <= k < 147456 ==> #[trigger] final(self).engine.info.cont_history_2.table@[k]
                    == 0,
            forall|k: int|
                0 <= k < 2304 ==> #[trigger] final(self).engine.info.capture_history.table@[k] == 0,
            forall|k: int|
                0 <= k < 768 ==> #[trigger] final(self).engine.info.counter_moves.table@[k] == Move(
                    0,
                ),
            forall|k: int|
                0 <= k < 128 ==> #[trigger] final(self).engine.info.killers.moves@[k] == (
                KillerPair { first: Move(0), second: Move(0) }),
            forall|k: int|
                0 <= k < 32768 ==> #[trigger] final(self).engine.info.correction_history.table@[k]
                    == (Correction { sum: 0, weight: 0 }),
            *final(self) == (Session {
                pos: final(self).pos,
                game_ply: 0,
                engine: EmbeddedEngine {
                    info: SearchInfo {
                        tt: final(self).engine.info.tt,
                        history: final(self).engine.info.history,
                        killers: final(self).engine.info.killers,
                        counter_moves: final(self).engine.info.counter_moves,
                        cont_history: final(self).engine.info.cont_history,
                        cont_history_2: final(self).engine.info.cont_history_2,
                        capture_history: final(self).engine.info.capture_history,
                        correction_history: final(self).engine.info.correction_history,
                        hash_history: final(self).engine.info.hash_history,
                        game_history_len: 0,
                        ..old(self).engine.info
                    },
                    ..old(self).engine
                },
                ..*old(self)
            }),
    {
        self.pos = Position::startpos();
        self.engine.info.tt.clear();
        self.engine.info.history.clear();
        self.engine.info.killers.clear();
        self.engine.info.counter_moves.clear();
        self.engine.info.cont_history.clear();
        self.engine.info.cont_history_2.clear();
        self.engine.info.capture_history.clear();
        self.engine.info.correction_history.clear();
        self.engine.info.hash_history = Vec::new();
        self.engine.info.game_history_len = 0;
        self.game_ply = 0;
    }

    /// Takes over a position, with the hashes and the number of moves of its game.
    fn place(&mut self, pos: Position, hashes: Vec<u64>, ply: u32)
        requires
            old(self).wf(),
            playable(pos),
            pos.clock_room(128),
        ensures
            final(self).wf(),
            same_but_game(*old(self), *final(self)),
            final(self).pos == pos,
            final(self).game_ply == ply,
            final(self).engine.info.hash_history == hashes,
            final(self).engine.info.game_history_len == hashes@.len(),
    {
        self.pos = pos;
        self.engine.info.game_history_len = hashes.len();
        self.engine.info.hash_history = hashes;
        self.game_ply = ply;
    }

    /// Carries out a "position" command. A position that cannot be played on, or
    /// whose counters leave no room for a search, leaves the session as it was.
    #[verifier::rlimit(40)]
    pub fn position(&mut self, tokens: &Vec<Vec<char>>) -> (r: Placed)
        requires
            old(self).wf(),
        ensures
            final(self).wf(),
            placed(*old(self), texts(tokens@), r, *final(self)),
    {
        let n: usize = tokens.len();
        let ghost t = texts(tokens@);
        if n < 2 {
            let here: Position = self.pos.clone();
            self.place(here, Vec::new(), 0);
            return Placed::Played { fen_error: None, bad_move: None };
        }
        assert(t[1] == tokens@[1]@);
        let mut base: Position = self.pos.clone();
        let mut idx: usize = 1;
        let mut fen_error: Option<&'static str> = None;
        if spells(&tokens[1], "startpos") {
            base = Position::startpos();
            idx = 2;
            proof {
                reveal_strlit("startpos");
                reveal_strlit("fen");
                assert("startpos"@.len() != "fen"@.len());
            }
        } else if spells(&tokens[1], "fen") {
            idx = find_moves(tokens);
            match read_start(&words_from(tokens, 2, idx)) {
                Start::Ready(p) => {
                    base = p;
                },
                Start::Refused(e) => {
                    fen_error = Some(e);
                },
                Start::Unplayable => {
                    return Placed::Unplayable;
                },
            }
        }
        assert(base_of(t, old(self).pos, base));
        assert(idx == moves_index(t));
        proof {
            if idx < n {
                assert(t[idx as int] == tokens@[idx as int]@);
            }
        }
        let moves: Vec<Vec<char>> = if idx < n && spells(&tokens[idx], "moves") {
            assert(t.subrange(idx + 1, n as int) =~= t.skip(idx + 1));
            words_from(tokens, idx + 1, n)
        } else {
            Vec::new()
        };
        assert(texts(moves@) =~= moves_of(t));
        let m: usize = moves.len();
        if m > 65000 || base.halfmove_clock as usize + m + 128 > 65535 || base.fullmove as usize + m
            + 128 > 65535 {
            return Placed::Unplayable;
        }
        let g: Game = play_named(&base, &moves);
        let played: usize = g.played;
        self.place(g.pos, g.hashes, played as u32);
        let bad_move: Option<usize> = if played < m {
            Some(played)
        } else {
            None
        };
        Placed::Played { fen_error, bad_move }
    }
}

/// The session before and after a "position" command.
pub open spec fn placed(a: Session, t: Seq<Seq<char>>, r: Placed, b: Session) -> bool {
    match r {
        Placed::Played { fen_error, bad_move } => if t.len() < 2 {
            fen_error is None && bad_move is None && b.pos == a.pos && b.game_ply == 0
                && b.engine.info.hash_history@.len() == 0 && b.engine.info.game_history_len == 0
                && same_but_game(a, b)
        } else {
            &&& same_but_game(a, b)
            &&& match fen_error {
                Some(e) => t[1] == "fen"@ && fields_fit(fen_fields(t)) && fields_error(
                    fen_fields(t),
                ) == Some(e@),
                None => t[1] != "fen"@ || fields_error(fen_fields(t)) is None,
            }
            &&& exists|p: Position| #[trigger]
                base_of(t, a.pos, p) && ({
                    let l = named_line(p, moves_of(t));
                    &&& moves_of(t).len() <= 65000
                    &&& p.clock_room(moves_of(t).len() as int + 128)
                    &&& legal_line(p, l)
                    &&& b.pos == after_line(p, l)
                    &&& b.engine.info.hash_history@ == line_hashes(p, l)
                    &&& b.engine.info.game_history_len == b.engine.info.hash_history@.len()
                    &&& b.game_ply == l.len()
                    &&& bad_move == (if l.len() < moves_of(t).len() {
                        Some(l.len() as usize)
                    } else {
                        None
                    })
                })
        },
        Placed::Unplayable => b == a && t.len() >= 2 && (t[1] == "fen"@ && start_of(
            fen_fields(t),
            Start::Unplayable,
        ) || exists|p: Position| #[trigger]
            base_of(t, a.pos, p) && (moves_of(t).len() > 65000 || !p.clock_room(
                moves_of(t).len() as int + 128,
            ))),
    }
}

/// Only the position, the hashes and the ply differ.
pub open spec fn same_but_game(a: Session, b: Session) -> bool {
    b == (Session {
        pos: b.pos,
        game_ply: b.game_ply,
        engine: EmbeddedEngine {
            info: SearchInfo {
                hash_history: b.engine.info.hash_history,
                game_history_len: b.engine.info.game_history_len,
                ..a.engine.info
            },
            ..a.engine
        },
        ..a
    })
}

// ---- Going ----
/// What a "go" command comes to.
pub enum GoAction {
    /// A book has the move.
    Book(Move),
    /// The position is searched, on the opponent's clock if it ponders.
    Search { ponder: bool },
}

/// The limits of a "go" command, as the books see them.
pub open spec fn limits_of(s: Session, g: GoCommand) -> EmbeddedLimits {
    EmbeddedLimits {
        tc: g.tc,
        deadline_ms: i64::MAX,
        budget: Budget { optimum: 0, maximum: 0, long_cap: 0 },
        ponder: g.ponder && s.ponder_allowed,
        game_ply: s.game_ply,
        depth: 0,
        nodes: 0,
    }
}

impl Session {
    /// Decides on a "go" command: a move of the books, or a search. Pondering
    /// that is not allowed is an ordinary search.
    pub fn go(&mut self, g: &GoCommand) -> (r: GoAction)
        requires
            old(self).wf(),
        ensures
            final(self).wf(),
            *final(self) == (Session {
                engine: EmbeddedEngine {
                    exp_rng: old(self).engine.rng_after(limits_of(*old(self), *g)),
                    ..old(self).engine
                },
                ..*old(self)
            }),
            r matches GoAction::Book(m) ==> legal(old(self).pos, m),
            r == match old(self).engine.known_move(old(self).pos, limits_of(*old(self), *g)) {
                Some(m) => GoAction::Book(m),
                None => GoAction::Search { ponder: g.ponder && old(self).ponder_allowed },
            },
    {
        let ponder: bool = g.ponder && self.ponder_allowed;
        let limits: EmbeddedLimits = EmbeddedLimits {
            tc: g.tc,
            deadline_ms: i64::MAX,
            budget: Budget::none(),
            ponder,
            game_ply: self.game_ply,
            depth: 0,
            nodes: 0,
        };
        let mut pos: Position = self.pos.clone();
        match self.engine.book_move(&mut pos, &limits) {
            Some(m) => GoAction::Book(m),
            None => GoAction::Search { ponder },
        }
    }
}

// ---- Learning ----
/// What a search teaches: the move, its score and the depth.
pub open spec fn lesson(p: Position, best: Move, score: int, depth: int) -> ExpEntry {
    let s = clamped(score, -32767, 32767) as i16;
    ExpEntry {
        key: poly_hash(p),
        packed_move: poly_code(best) as u16,
        score: s,
        depth: clamped(depth, 0, 32767) as i16,
        count: 1,
        source: 0x20,
        flags: if mag(score) >= 28872 {
            0x11
        } else {
            0x01
        },
        wdl_w: 0,
        wdl_l: 0,
        nnue_eval: EXP_SCORE_NONE,
        jug_score: EXP_SCORE_NONE,
        sf_score: EXP_SCORE_NONE,
        clrsrc_score: s,
    }
}

fn short_of(v: i32, lo: i16) -> (r: i16)
    ensures
        r == clamped(v as int, lo as int, 32767),
{
    if v < lo as i32 {
        lo
    } else if v > 32767 {
        32767
    } else {
        v as i16
    }
}

/// The entry that is written after a search: none while pondering, without a
/// move, or if the search was not deep enough.
pub fn learnt(pos: &Position, info: &SearchInfo, best: Move, ponder: bool, min_depth: i32) -> (r:
    Option<ExpEntry>)
    requires
        pos.ep_square <= 64,
        info.root_score > i32::MIN,
    ensures
        r == (if ponder || best.0 == 0 || info.completed_depth < min_depth {
            None
        } else {
            Some(lesson(*pos, best, info.root_score as int, info.completed_depth as int))
        }),
{
    if ponder || best.0 == 0 || info.completed_depth < min_depth {
        return None;
    }
    let score: i16 = short_of(info.root_score, -32767);
    let mate: bool = mag_i32(info.root_score) >= MATE_IN_MAX;
    Some(
        ExpEntry {
            key: polyglot_hash(pos),
            packed_move: encode_poly_move(best),
            score,
            depth: short_of(info.completed_depth, 0),
            count: 1,
            source: EXP_SOURCE_ENGINE,
            flags: if mate {
                0x11
            } else {
                EXP_FLAG_VALIDATED
            },
            wdl_w: 0,
            wdl_l: 0,
            nnue_eval: EXP_SCORE_NONE,
            jug_score: EXP_SCORE_NONE,
            sf_score: EXP_SCORE_NONE,
            clrsrc_score: score,
        },
    )
}

// ---- Reports ----
/// The move to ponder on: the second of the line, if it is legal after the first.
pub open spec fn pondered(p: Position, line: Seq<Move>, best: Move, allowed: bool) -> Option<Move> {
    if allowed && line.len() > 1 && legal(p, best) && legal(after(p, best), line[1]) {
        Some(line[1])
    } else {
        None
    }
}

/// The move to ponder on after a search.
pub fn ponder_move(pos: &Position, line: &Vec<Move>, best: Move, allowed: bool) -> (r: Option<Move>)
    requires
        playable(*pos),
        pos.clock_room(2),
        best.0 != 0 ==> legal(*pos, best),
    ensures
        r == pondered(*pos, line@, best, allowed),
{
    proof {
        sound_facts(*pos);
    }
    if best.0 == 0 {
        proof {
            if legal(*pos, best) {
                crate::play::pseudo_legal_is_real(*pos, best);
            }
        }
        return None;
    }
    if !allowed || line.len() < 2 {
        return None;
    }
    let candidate: Move = line[1];
    let mut q: Position = pos.clone();
    let undo: Option<UndoInfo> = try_move(&mut q, best);
    proof {
        crate::play::clocks_after(*pos, best, q, undo->0, 2);
        sound_facts(q);
        legal_moves_are_legal(q, candidate);
    }
    let mut list: MoveList = MoveList::new();
    generate_legal(&mut q, &mut list);
    assert(list@ =~= legal_moves(after(*pos, best)));
    let mut i: usize = 0;
    while i < list.len
        invariant
            i <= list@.len(),
            list.wf(),
            list@ == legal_moves(after(*pos, best)),
            forall|k: int| 0 <= k < i ==> #[trigger] list@[k] != candidate,
            list@.contains(candidate) == legal(after(*pos, best), candidate),
            legal(*pos, best),
            allowed,
            line@.len() >= 2,
            candidate == line@[1],
        decreases list@.len() - i,
    {
        if list.moves[i] == candidate {
            assert(list@[i as int] == candidate);
            return Some(candidate);
        }
        i = i + 1;
    }
    None
}

/// The line that answers a "go" command.
pub open spec fn best_line(best: Move, ponder: Option<Move>) -> Seq<char> {
    "bestmove "@ + best.uci() + match ponder {
        Some(m) => " ponder "@ + m.uci(),
        None => Seq::empty(),
    }
}

/// The line that answers a "go" command.
pub fn best_text(best: Move, ponder: Option<Move>) -> (t: String)
    ensures
        t@ == best_line(best, ponder),
{
    let mut t: String = String::new();
    push_text(&mut t, "bestmove ");
    push_text(&mut t, best.to_uci().as_str());
    if let Some(m) = ponder {
        push_text(&mut t, " ponder ");
        push_text(&mut t, m.to_uci().as_str());
    }
    assert(t@ =~= best_line(best, ponder));
    t
}

/// The sessions of a dialogue: at each step a setting is taken over, or another
/// command is carried out, which leaves the permission to ponder as it is. That holds
/// of `new_game`, `position` and `go`.
pub open spec fn dialogue(s: Seq<Session>, steps: Seq<Option<Setting>>) -> bool {
    &&& s.len() == steps.len() + 1
    &&& forall|i: int|
        0 <= i < steps.len() ==> match #[trigger] steps[i] {
            Some(x) => changed_by(s[i], x, s[i + 1]),
            None => s[i + 1].ponder_allowed == s[i].ponder_allowed,
        }
}

/// Once pondering is forbidden, and as long as it is not set again, no "go" command
/// ponders, and no answer names a move to ponder on.
pub proof fn forbidden_pondering_stays_off(
    s: Seq<Session>,
    steps: Seq<Option<Setting>>,
    at: int,
    n: int,
)
    requires
        dialogue(s, steps),
        0 <= at < n <= steps.len(),
        steps[at] == Some(Setting::Ponder(false)),
        forall|i: int|
            at < i < n ==> !(#[trigger] steps[i] matches Some(x) && x is Ponder),
    ensures
        !s[n].ponder_allowed,
        forall|g: GoCommand| !(#[trigger] limits_of(s[n], g)).ponder,
        forall|p: Position, line: Seq<Move>, best: Move|
            best_line(best, #[trigger] pondered(p, line, best, s[n].ponder_allowed)) == "bestmove "@
                + best.uci(),
    decreases n,
{
    if n == at + 1 {
        assert(changed_by(s[at], steps[at]->0, s[n]));
    } else {
        forbidden_pondering_stays_off(s, steps, at, n - 1);
        let k = n - 1;
        if steps[k] is Some {
            assert(changed_by(s[k], steps[k]->0, s[n]));
        }
    }
    assert forall|p: Position, line: Seq<Move>, best: Move|
        best_line(best, #[trigger] pondered(p, line, best, s[n].ponder_allowed)) == "bestmove "@
            + best.uci() by {
        assert("bestmove "@ + best.uci() + Seq::empty() =~= "bestmove "@ + best.uci());
    }
}

/// A score as the protocol writes it.
pub open spec fn score_words(score: int) -> Seq<char> {
    if decisive(score) {
        "mate "@ + signed_decimal(mate_moves(score))
    } else {
        "cp "@ + signed_decimal(score)
    }
}

/// Moves, each after a space.
pub open spec fn line_words(l: Seq<Move>) -> Seq<char>
    decreases l.len(),
{
    if l.len() == 0 {
        Seq::empty()
    } else {
        line_words(l.drop_last()) + seq![' '] + l.last().uci()
    }
}

/// The line that reports a completed iteration.
pub open spec fn info_line(
    depth: int,
    seldepth: int,
    score: int,
    nodes: int,
    hashfull: int,
    tb_hits: int,
    elapsed: int,
    line: Seq<Move>,
) -> Seq<char> {
    let ms = at_least(elapsed, 1);
    "info depth "@ + signed_decimal(depth) + " seldepth "@ + signed_decimal(seldepth) + " score "@
        + score_words(score) + " nodes "@ + decimal(nodes as nat) + " nps "@ + decimal(
        (nodes * 1000 / ms) as nat,
    ) + " hashfull "@ + decimal(hashfull as nat) + " tbhits "@ + decimal(tb_hits as nat)
        + " time "@ + decimal(ms as nat) + " pv"@ + line_words(line)
}

fn push_line(t: &mut String, l: &Vec<Move>)
    ensures
        final(t)@ == old(t)@ + line_words(l@),
{
    let mut i: usize = 0;
    let ghost start = t@;
    assert(l@.take(0) =~= Seq::empty());
    assert(t@ =~= start + line_words(l@.take(0)));
    while i < l.len()
        invariant
            i <= l@.len(),
            t@ == start + line_words(l@.take(i as int)),
        decreases l@.len() - i,
    {
        let ghost before = t@;
        t.push(' ');
        push_text(t, l[i].to_uci().as_str());
        proof {
            let s = l@.take(i + 1);
            assert(s.drop_last() =~= l@.take(i as int));
            assert(t@ =~= start + line_words(s));
        }
        i = i + 1;
    }
    assert(l@.take(i as int) =~= l@);
}

/// The line that reports the last completed iteration, with the time since the
/// search began.
pub fn info_text(info: &SearchInfo, score: i32, elapsed: i64) -> (t: String)
    requires
        info.wf(),
        bounded_score(score as int),
        info.nodes + info.helper_nodes <= 0x3f_ffff_ffff_ffff,
    ensures
        t@ == info_line(
            info.completed_depth as int,
            info.seldepth as int,
            score as int,
            info.nodes + info.helper_nodes,
            info.tt.fullness(),
            info.tb_hits as int,
            elapsed as int,
            info.pv@,
        ),
{
    let ms: u64 = if elapsed < 1 {
        1
    } else {
        elapsed as u64
    };
    let nodes: u64 = info.nodes + info.helper_nodes;
    let mut t: String = String::new();
    push_text(&mut t, "info depth ");
    push_signed(&mut t, info.completed_depth);
    push_text(&mut t, " seldepth ");
    push_signed(&mut t, info.seldepth);
    push_text(&mut t, " score ");
    if is_mate_score(score) {
        push_text(&mut t, "mate ");
        push_signed(&mut t, mate_in(score));
    } else {
        push_text(&mut t, "cp ");
        push_signed(&mut t, score);
    }
    push_text(&mut t, " nodes ");
    push_decimal(&mut t, nodes);
    push_text(&mut t, " nps ");
    push_decimal(&mut t, nodes * 1000 / ms);
    push_text(&mut t, " hashfull ");
    push_decimal(&mut t, info.tt.hashfull() as u64);
    push_text(&mut t, " tbhits ");
    push_decimal(&mut t, info.tb_hits);
    push_text(&mut t, " time ");
    push_decimal(&mut t, ms);
    push_text(&mut t, " pv");
    push_line(&mut t, &info.pv);
    assert(t@ =~= info_line(
        info.completed_depth as int,
        info.seldepth as int,
        score as int,
        info.nodes + info.helper_nodes,
        info.tt.fullness(),
        info.tb_hits as int,
        elapsed as int,
        info.pv@,
    ));
    t
}

} // verus!
