//! The engine as a part of another program.

use crate::board::Position;
use crate::book::{chosen_move, Book};
use crate::decide::{mate_in, mate_moves, MAX_DEPTH, MINIMUM_MATE_SCORE};
use crate::expbook::{best_offer, readable, ExpBook};
use crate::fen::fen_fits;
use crate::game::{
    after_line, describes, describes_once, fen_error, fields_describe, is_start, line_hashes,
    named_line, names_start, play_named, start_once, start_position, Game, Start,
};
use crate::model::{fresh_mind, search_result, Course, Mind};
use crate::netfile::{header_complete, is_complete, loads, refused_for, NetError};
use crate::nnue::Nnue;
use crate::num::{at_least, at_most, clamped, mag, mag_i32};
use crate::play::legal_line;
use crate::rules::{legal, playable};
use crate::search::{
    bounded_score, comes_to, decided_at_root, ended_settled, fresh_minds_are_alike, gives,
    keeps_last, same_setup, search, shows_stops, SearchInfo,
};
use crate::tablebase::Tablebases;
use crate::text::{texts, words};
use crate::time::{depth_limit, set_pondering, set_stop, Budget, TimeControl, TimeManager};
use crate::tt::TTable;
use crate::types::{chars_of, Color, Move};
use std::sync::atomic::{AtomicBool, Ordering};
use vstd::prelude::*;

verus! {

// ---- Limits and outcomes ----
/// The limits of one move.
pub struct EmbeddedLimits {
    pub tc: TimeControl,
    /// Milliseconds until the search must end.
    pub deadline_ms: i64,
    /// The budget of the move, which a running clock is kept by.
    pub budget: Budget,
    /// The search runs on the opponent's clock.
    pub ponder: bool,
    /// How many moves have been played in the game.
    pub game_ply: u32,
    /// A fixed depth, or 0.
    pub depth: i32,
    /// A fixed number of nodes, or 0.
    pub nodes: u64,
}

impl EmbeddedLimits {
    /// The time control with the fixed depth and number of nodes. Depths above
    /// the deepest that is searched are that depth.
    pub open spec fn folded(&self) -> TimeControl {
        TimeControl {
            depth: at_most(
                if self.depth > 0 {
                    self.depth as int
                } else {
                    self.tc.depth as int
                },
                MAX_DEPTH as int,
            ) as i32,
            nodes: if self.nodes > 0 {
                self.nodes
            } else {
                self.tc.nodes
            },
            ..self.tc
        }
    }

    /// The time control with the fixed depth and number of nodes.
    pub fn fold(&self) -> (tc: TimeControl)
        ensures
            tc == self.folded(),
    {
        let mut tc: TimeControl = self.tc;
        if self.depth > 0 {
            tc.depth = self.depth;
        }
        if tc.depth > MAX_DEPTH {
            tc.depth = MAX_DEPTH;
        }
        if self.nodes > 0 {
            tc.nodes = self.nodes;
        }
        tc
    }

    /// The books may be asked: the search is not pondering, and neither infinite
    /// nor to a fixed depth.
    pub open spec fn asks_books(&self) -> bool {
        !self.ponder && !self.tc.infinite && self.folded().depth == 0
    }

    /// No clock limits the search, apart from the deadline.
    pub open spec fn ignores_time(&self) -> bool {
        self.folded().infinite || self.folded().depth > 0
    }
}

/// What a search has found.
#[derive(Debug)]
pub struct SearchOutcome {
    pub best: Move,
    pub ponder: Option<Move>,
    pub pv: Vec<Move>,
    pub score_cp: i32,
    pub depth: i32,
    pub nodes: u64,
    /// Moves until mate, negative for the side that is mated; only for scores
    /// that are mates.
    pub mate: Option<i32>,
}

/// The line that is reported with a move: the line of the search if it begins
/// with the move, otherwise the move alone.
pub open spec fn reported_line(line: Seq<Move>, best: Move) -> Seq<Move> {
    if line.len() > 0 && line[0] == best {
        line
    } else {
        seq![best]
    }
}

/// The mate that a score announces.
pub open spec fn announced_mate(score: int) -> Option<int> {
    if mag(score) >= 28872 {
        Some(mate_moves(score))
    } else {
        None
    }
}

/// The outcome is that of a search that gave this move.
pub open spec fn reports(o: SearchOutcome, info: SearchInfo, best: Move) -> bool {
    &&& o.best == best
    &&& o.pv@ == reported_line(info.pv@, best)
    &&& o.ponder == (if o.pv@.len() >= 2 {
        Some(o.pv@[1])
    } else {
        None
    })
    &&& o.score_cp == info.root_score
    &&& o.depth == info.completed_depth
    &&& o.nodes == info.nodes
    &&& match o.mate {
        Some(m) => announced_mate(info.root_score as int) == Some(m as int),
        None => announced_mate(info.root_score as int) is None,
    }
}

/// The outcome is that of a book move.
pub open spec fn from_book(o: SearchOutcome, mv: Move) -> bool {
    &&& o.best == mv
    &&& o.ponder is None
    &&& o.pv@ == seq![mv]
    &&& o.score_cp == 0
    &&& o.depth == 0
    &&& o.nodes == 0
    &&& o.mate is None
}

/// The outcome of a search that gave a move.
pub fn outcome_of(info: &SearchInfo, best: Move) -> (o: SearchOutcome)
    requires
        bounded_score(info.root_score as int),
    ensures
        reports(o, *info, best),
{
    let mut pv: Vec<Move> = Vec::new();
    if info.pv.len() > 0 && info.pv[0] == best {
        let mut i: usize = 0;
        while i < info.pv.len()
            invariant
                i <= info.pv@.len(),
                pv@ == info.pv@.take(i as int),
            decreases info.pv@.len() - i,
        {
            pv.push(info.pv[i]);
            i = i + 1;
            assert(pv@ =~= info.pv@.take(i as int));
        }
        assert(pv@ =~= info.pv@);
    } else {
        pv.push(best);
        assert(pv@ =~= seq![best]);
    }
    let ponder: Option<Move> = if pv.len() >= 2 {
        Some(pv[1])
    } else {
        None
    };
    let score: i32 = info.root_score;
    let mate: Option<i32> = if mag_i32(score) >= MINIMUM_MATE_SCORE {
        Some(mate_in(score))
    } else {
        None
    };
    SearchOutcome {
        best,
        ponder,
        pv,
        score_cp: score,
        depth: info.completed_depth,
        nodes: info.nodes,
        mate,
    }
}

fn book_outcome(mv: Move) -> (o: SearchOutcome)
    ensures
        from_book(o, mv),
{
    let mut pv: Vec<Move> = Vec::new();
    pv.push(mv);
    assert(pv@ =~= seq![mv]);
    SearchOutcome { best: mv, ponder: None, pv, score_cp: 0, depth: 0, nodes: 0, mate: None }
}

/// A search has ended with this outcome: the move is legal, and so is the line.
pub open spec fn searched(p: Position, o: SearchOutcome, info: SearchInfo) -> bool {
    &&& reports(o, info, o.best)
    &&& o.best.0 != 0 ==> legal(p, o.best) && legal_line(p, o.pv@) && o.pv@ == info.pv@
    &&& o.best.0 == 0 ==> o.pv@ == seq![o.best]
}

fn is_raised(signal: &AtomicBool) -> bool {
    signal.load(Ordering::Relaxed)
}

/// What a search within limits comes to, where they are a depth or none: the same
/// as any other search that knows as much.
pub open spec fn limited_result(
    s: Mind,
    game_hashes: int,
    p: Position,
    limits: EmbeddedLimits,
) -> Course {
    search_result(
        s,
        game_hashes,
        p,
        depth_limit(limits.folded()),
        limits.folded().soft_nodes as int,
        limits.folded().nodes,
    )
}

/// What comes of a search from `a` to `b` within limits, where it begins with the
/// knowledge `s`. Where nothing outside has a say, the outcome is that of any other
/// search that knows as much; where a clock, a signal or the limit of the nodes ends it
/// in a later iteration, the outcome is that of the last completed one. At least one
/// iteration is completed, unless a tablebase decides at once.
pub open spec fn limited_search(
    a: SearchInfo,
    b: SearchInfo,
    s: Mind,
    game_hashes: int,
    p: Position,
    limits: EmbeddedLimits,
    o: SearchOutcome,
) -> bool {
    let soft = limits.folded().soft_nodes as int;
    let nodes = limits.folded().nodes;
    &&& searched(p, o, b)
    &&& o.depth <= depth_limit(limits.folded())
    &&& a.undisturbed(b) && limits.ignores_time() ==> gives(
        b,
        o.best,
        limited_result(s, game_hashes, p, limits),
    )
    &&& a.undisturbed(b) ==> comes_to(b, o.best, s, game_hashes, p, soft, nodes)
    &&& b.iteration_stops == a.stops && o.depth >= 1 ==> keeps_last(
        b,
        o.best,
        s,
        game_hashes,
        p,
        soft,
        nodes,
    )
    &&& o.depth >= 1 || decided_at_root(a, b, p, o.best)
    &&& shows_stops(a, b)
    &&& ended_settled(b, depth_limit(limits.folded()), soft)
}

/// Searches one move within limits. What the search has learnt stays for the
/// next move. The signal to cancel is read once,
/// before the search begins.
pub fn search_embedded(
    pos: &mut Position,
    info: &mut SearchInfo,
    limits: EmbeddedLimits,
    cancel: &AtomicBool,
) -> (o: SearchOutcome)
    requires
        playable(*old(pos)),
        old(pos).clock_room(128),
        old(info).wf(),
        limits.budget.wf(),
    ensures
        *final(pos) == *old(pos),
        final(info).wf(),
        same_setup(*old(info), *final(info)),
        final(info).hash_history@ == old(info).hash_history@.take(
            old(info).game_history_len as int,
        ),
        limited_search(
            *old(info),
            *final(info),
            old(info).mind(),
            old(info).game_history_len as int,
            *old(pos),
            limits,
            o,
        ),
{
    let tc: TimeControl = limits.fold();
    let is_white: bool = pos.side == Color::White;
    let mut tm: TimeManager = TimeManager::with_deadline(
        &tc,
        is_white,
        limits.budget,
        limits.deadline_ms,
    );
    set_stop(&tm.signals, is_raised(cancel));
    set_pondering(&tm.signals, limits.ponder);
    let best: Move = search(pos, info, &mut tm);
    outcome_of(info, best)
}

/// An embedded search and any other search that know as much, and have the same
/// limits, come to the same move, score, line and number of nodes.
pub proof fn embedded_searches_alike(
    a: SearchInfo,
    a_best: Move,
    b: SearchInfo,
    b_best: Move,
    s: Mind,
    game_hashes: int,
    p: Position,
    limits: EmbeddedLimits,
    tm: TimeManager,
)
    requires
        gives(a, a_best, limited_result(s, game_hashes, p, limits)),
        gives(
            b,
            b_best,
            search_result(
                s,
                game_hashes,
                p,
                tm.max_depth as int,
                tm.soft_nodes as int,
                tm.max_nodes,
            ),
        ),
        tm.max_depth == depth_limit(limits.folded()),
        tm.soft_nodes == limits.folded().soft_nodes,
        tm.max_nodes == limits.folded().nodes,
    ensures
        a_best == b_best,
        a.root_score == b.root_score,
        a.pv@ == b.pv@,
        a.completed_depth == b.completed_depth,
        a.nodes == b.nodes,
        a.mind() == b.mind(),
{
    assert(a.nodes == a.mind().nodes && b.nodes == b.mind().nodes);
}

/// An engine that has learnt nothing knows as much of a position as a new search with a
/// table of the same size and the same network. With `embedded_searches_alike` its
/// reply, where the books have no move, is that of the plain search.
pub proof fn new_engine_knows_as_much(e: SearchInfo, b: SearchInfo, p: Position, mb: int)
    requires
        e.tt.empty_of(mb),
        b.tt.empty_of(mb),
        e.mind() == (Mind { nnue: e.nnue, ..fresh_mind(e.tt) }),
        b.mind() == (Mind { nnue: e.nnue, hashes: seq![p.hash], ..fresh_mind(b.tt) }),
    ensures
        (Mind { hashes: line_hashes(p, Seq::empty()), ..e.mind() }) == b.mind(),
{
    fresh_minds_are_alike(mb, e.tt, b.tt);
    assert(line_hashes(p, Seq::empty()) =~= seq![p.hash]);
}

// ---- The engine ----
/// The settings of an engine.
#[derive(Debug)]
pub struct EmbeddedConfig {
    pub eval_file: Option<String>,
    pub hash_mb: usize,
    pub syzygy_path: Option<String>,
    pub syzygy_probe_limit: Option<usize>,
    pub syzygy_probe_depth: Option<usize>,
    pub syzygy_50move: Option<bool>,
    pub exp_file: Option<String>,
    pub play_from_exp: bool,
    pub book_variety: u8,
    pub own_book: bool,
    pub book_file: Option<String>,
    pub best_book_move: bool,
    /// This setting and the four that follow have no effect: they are accepted, and
    /// no search depends on them.
    pub conv_floor: bool,
    pub conv_threshold: Option<u32>,
    pub conv_extend: Option<u32>,
    pub conv_maxpieces: Option<u32>,
    pub conv_minremaining: Option<u32>,
}

impl EmbeddedConfig {
    /// A list of directories with tablebases is given.
    pub open spec fn names_tables(&self) -> bool {
        self.syzygy_path matches Some(p) && p@.len() > 0
    }

    /// The tablebases are opened if there are any, and set as the settings say.
    /// Without a limit of the pieces it is 6, or what the tables hold if that is
    /// less.
    pub open spec fn sets_tables(&self, t: Tablebases) -> bool {
        &&& t.wf()
        &&& t.tables is Some == self.names_tables()
        &&& t.probe_limit == match self.syzygy_probe_limit {
            Some(l) => at_most(l as int, 7),
            None => if self.names_tables() {
                at_most(t.max_pieces as int, 6)
            } else {
                6
            },
        }
        &&& t.probe_depth == match self.syzygy_probe_depth {
            Some(d) => clamped(d as int, 1, 100),
            None => 1,
        }
        &&& t.use_50move == match self.syzygy_50move {
            Some(b) => b,
            None => true,
        }
    }
}

impl Default for EmbeddedConfig {
    fn default() -> (c: EmbeddedConfig)
        ensures
            c.eval_file is None,
            c.hash_mb == 64,
            c.syzygy_path is None,
            c.syzygy_probe_limit is None,
            c.syzygy_probe_depth is None,
            c.syzygy_50move is None,
            c.exp_file is None,
            !c.play_from_exp,
            c.book_variety == 0,
            !c.own_book,
            c.book_file is None,
            c.best_book_move,
            c.conv_floor,
            c.conv_threshold is None,
            c.conv_extend is None,
            c.conv_maxpieces is None,
            c.conv_minremaining is None,
    {
        EmbeddedConfig {
            eval_file: None,
            hash_mb: 64,
            syzygy_path: None,
            syzygy_probe_limit: None,
            syzygy_probe_depth: None,
            syzygy_50move: None,
            exp_file: None,
            play_from_exp: false,
            book_variety: 0,
            own_book: false,
            book_file: None,
            best_book_move: true,
            conv_floor: true,
            conv_threshold: None,
            conv_extend: None,
            conv_maxpieces: None,
            conv_minremaining: None,
        }
    }
}

/// The bytes of the files that the settings name, as far as they could be read.
pub struct EmbeddedFiles {
    pub net: Option<Vec<u8>>,
    pub exp: Option<Vec<u8>>,
    pub book: Option<Vec<u8>>,
}

/// How the loading of a network ended.
#[derive(Clone, Copy, PartialEq, Eq, Structural, Debug)]
pub enum NetLoad {
    Loaded,
    Failed(NetError),
    /// A supported header announces more numbers than the file holds.
    Truncated,
    /// The network cannot score every position.
    Unusable,
}

/// What it means that the loading of a network from these bytes ended so, with this
/// network in use.
pub open spec fn load_ended(data: Seq<u8>, r: NetLoad, nnue: Nnue) -> bool {
    match r {
        NetLoad::Loaded => header_complete(data) && nnue.usable() && loads(data, nnue.net()),
        NetLoad::Failed(e) => header_complete(data) && refused_for(data, e),
        NetLoad::Truncated => !header_complete(data),
        NetLoad::Unusable => header_complete(data) && exists|n: Nnue|
            n.wf() && !#[trigger] n.usable() && loads(data, n.net()),
    }
}

/// Gives a search the network of a file. Another network stays if that fails.
pub fn load_net(info: &mut SearchInfo, data: &[u8]) -> (r: NetLoad)
    requires
        old(info).wf(),
    ensures
        final(info).wf(),
        load_ended(data@, r, final(info).nnue),
        r != NetLoad::Loaded ==> *final(info) == *old(info),
        *final(info) == (SearchInfo { nnue: final(info).nnue, ..*old(info) }),
{
    if !is_complete(data) {
        return NetLoad::Truncated;
    }
    let mut n: Nnue = Nnue::new();
    match n.load_bytes(data) {
        Ok(_) => {
            if n.is_usable() {
                info.nnue = n;
                NetLoad::Loaded
            } else {
                NetLoad::Unusable
            }
        },
        Err(e) => NetLoad::Failed(e),
    }
}

/// An engine with its books, for the moves of one game.
pub struct EmbeddedEngine {
    pub info: SearchInfo,
    pub exp: Option<ExpBook>,
    pub book: Option<Book>,
    pub play_from_exp: bool,
    pub own_book: bool,
    pub best_book_move: bool,
    pub book_variety: u8,
    pub exp_rng: u64,
}

/// The reply to a request for a move.
pub enum Reply {
    Done(SearchOutcome),
    /// The position cannot be played on.
    Unplayable,
}

/// The game starts in this position. A text that is no FEN stands for the
/// initial position.
pub open spec fn starts_in(fen: Seq<char>, p: Position) -> bool {
    if names_start(fen) || fen_fits(fen) && fen_error(fen) is Some {
        is_start(p)
    } else {
        describes(fen, p) && playable(p)
    }
}

/// The next random number of the experience book.
pub open spec fn next_rng(r: u64) -> u64 {
    if r + 0x9E37_79B9_7F4A_7C15 > u64::MAX {
        (r + 0x9E37_79B9_7F4A_7C15 - u64::MAX - 1) as u64
    } else {
        (r + 0x9E37_79B9_7F4A_7C15) as u64
    }
}

/// The random number for the other book: the hash mixed with the ply.
pub open spec fn ply_rng(hash: u64, ply: u32) -> u64 {
    hash ^ ((ply * 6364136223846793005) % 0x1_0000_0000_0000_0000) as u64
}

impl EmbeddedEngine {
    pub open spec fn wf(&self) -> bool {
        &&& self.info.wf()
        &&& self.exp matches Some(b) ==> b.wf()
        &&& self.book matches Some(b) ==> b.wf()
    }

    /// The experience book is asked first.
    pub open spec fn exp_move(&self, p: Position) -> Option<Move> {
        match self.exp {
            Some(b) => if self.play_from_exp {
                best_offer(p, b.offers(p), self.book_variety, next_rng(self.exp_rng) ^ p.hash)
            } else {
                None
            },
            None => None,
        }
    }

    /// The other book is asked when the experience book has no move.
    pub open spec fn own_move(&self, p: Position, ply: u32) -> Option<Move> {
        match self.book {
            Some(b) => if self.own_book {
                chosen_move(p, b.offers(p), ply_rng(p.hash, ply) as int, self.best_book_move)
            } else {
                None
            },
            None => None,
        }
    }

    /// The random number of the experience book after it has been asked, if it is.
    pub open spec fn rng_after(&self, limits: EmbeddedLimits) -> u64 {
        if limits.asks_books() && self.play_from_exp && self.exp is Some {
            next_rng(self.exp_rng)
        } else {
            self.exp_rng
        }
    }

    /// The move that the books give for a position.
    pub open spec fn known_move(&self, p: Position, limits: EmbeddedLimits) -> Option<Move> {
        if !limits.asks_books() {
            None
        } else if self.exp_move(p) is Some {
            self.exp_move(p)
        } else {
            self.own_move(p, limits.game_ply)
        }
    }

    /// An engine with the given settings and files. The seed starts the random
    /// numbers of the experience book.
    pub fn init(config: EmbeddedConfig, files: EmbeddedFiles, seed: u64) -> (r: (
        EmbeddedEngine,
        Option<NetLoad>,
    ))
        requires
            at_least(at_most(config.hash_mb as int, 65536), 1) * 1048576 <= usize::MAX,
        ensures
            r.0.wf(),
            r.0.info.tt.empty_of(clamped(config.hash_mb as int, 1, 65536)),
            r.0.info.mind() == (Mind { nnue: r.0.info.nnue, ..fresh_mind(r.0.info.tt) }),
            r.0.info.game_history_len == 0,
            r.0.info.pv@.len() == 0,
            r.0.info.stops@ == 0,
            !r.0.info.silent,
            !r.0.info.print_info,
            r.0.play_from_exp == config.play_from_exp,
            r.0.own_book == config.own_book,
            r.0.best_book_move == config.best_book_move,
            r.0.book_variety == config.book_variety,
            r.0.exp_rng == seed | 1,
            r.1 is Some == files.net is Some,
            r.0.info.nnue.params is Some == (r.1 == Some(NetLoad::Loaded)),
            files.net matches Some(d) ==> load_ended(d@, r.1->0, r.0.info.nnue),
            match r.0.exp {
                Some(b) => config.play_from_exp && files.exp is Some && readable(files.exp->0@)
                    && b.read_from(files.exp->0@),
                None => !config.play_from_exp || files.exp is None || !readable(files.exp->0@),
            },
            match r.0.book {
                Some(b) => config.own_book && files.book is Some && b.data == files.book->0,
                None => !config.own_book || files.book is None,
            },
            config.sets_tables(r.0.info.tables),
    {
        let mb: usize = if config.hash_mb < 1 {
            1
        } else if config.hash_mb > 65536 {
            65536
        } else {
            config.hash_mb
        };
        let mut info: SearchInfo = SearchInfo::new(TTable::new_shared(mb));
        info.print_info = false;
        let mut load: Option<NetLoad> = None;
        if let Some(d) = &files.net {
            load = Some(load_net(&mut info, d.as_slice()));
        }
        if let Some(p) = &config.syzygy_path {
            if chars_of(p.as_str()).len() > 0 {
                let _reports: Vec<crate::tablebase::DirReport> = info.tables.init(p.as_str());
            }
        }
        if let Some(l) = config.syzygy_probe_limit {
            info.tables.set_probe_limit(
                if l > 7 {
                    7
                } else {
                    l
                },
            );
        }
        if let Some(d) = config.syzygy_probe_depth {
            info.tables.set_probe_depth(
                if d < 1 {
                    1
                } else if d > 100 {
                    100
                } else {
                    d
                },
            );
        }
        if let Some(b) = config.syzygy_50move {
            info.tables.set_50move_rule(b);
        }
        let mut exp: Option<ExpBook> = None;
        if config.play_from_exp {
            if let Some(d) = &files.exp {
                exp = ExpBook::from_bytes(d.as_slice());
            }
        }
        let book: Option<Book> = if config.own_book {
            match files.book {
                Some(d) => Some(Book::from_bytes(d)),
                None => None,
            }
        } else {
            None
        };
        let engine: EmbeddedEngine = EmbeddedEngine {
            info,
            exp,
            book,
            play_from_exp: config.play_from_exp,
            own_book: config.own_book,
            best_book_move: config.best_book_move,
            book_variety: config.book_variety,
            exp_rng: seed | 1,
        };
        (engine, load)
    }

    /// A network is loaded.
    pub fn nnue_loaded(&self) -> (b: bool)
        ensures
            b == self.info.nnue.params is Some,
    {
        self.info.nnue.is_loaded()
    }

    /// The move of the books for a position, if the limits let them be asked.
    pub fn book_move(&mut self, pos: &mut Position, limits: &EmbeddedLimits) -> (r: Option<Move>)
        requires
            old(self).wf(),
            playable(*old(pos)),
            old(pos).clock_room(1),
        ensures
            *final(pos) == *old(pos),
            *final(self) == (EmbeddedEngine { exp_rng: old(self).rng_after(*limits), ..*old(self) }),
            r matches Some(m) ==> legal(*old(pos), m),
            r == old(self).known_move(*old(pos), *limits),
    {
        let tc: TimeControl = limits.fold();
        if limits.ponder || tc.infinite || tc.depth != 0 {
            return None;
        }
        if self.play_from_exp {
            if let Some(b) = &self.exp {
                let rng: u64 = self.exp_rng.wrapping_add(0x9E37_79B9_7F4A_7C15);
                self.exp_rng = rng;
                if let Some(m) = b.probe_best(pos, self.book_variety, rng ^ pos.hash) {
                    return Some(m);
                }
            }
        }
        if self.own_book {
            if let Some(b) = &self.book {
                let x: u64 = (limits.game_ply as u64).wrapping_mul(6364136223846793005);
                return b.probe(pos, pos.hash ^ x, self.best_book_move);
            }
        }
        None
    }

    /// Plays a game up to its position, and remembers the hashes. Nothing if the
    /// position cannot be played on, or its counters leave no room for a search.
    pub fn set_up(&mut self, start_fen: &str, moves: &[&str]) -> (r: Option<Position>)
        requires
            old(self).wf(),
        ensures
            final(self).wf(),
            same_setup_but_history(*old(self), *final(self)),
            match r {
                Some(q) => has_room(start_fen@, moves@.len() as int) && exists|p: Position| #[trigger]
                    starts_in(start_fen@, p) && playable(q) && q.clock_room(128) && ({
                        let l = named_line(p, spelled(moves@));
                        &&& q == after_line(p, l)
                        &&& legal_line(p, l)
                        &&& final(self).info.hash_history@ == line_hashes(p, l)
                        &&& final(self).info.game_history_len == l.len() + 1
                    }),
                None => *final(self) == *old(self) && !has_room(start_fen@, moves@.len() as int),
            },
    {
        let p: Position = match start_position(start_fen) {
            Start::Ready(p) => p,
            Start::Refused(_) => Position::startpos(),
            Start::Unplayable => {
                proof {
                    assert(!has_room(start_fen@, moves@.len() as int)) by {
                        if has_room(start_fen@, moves@.len() as int) {
                            let p = choose|p: Position| #[trigger]
                                starts_in(start_fen@, p) && p.clock_room(moves@.len() as int + 128);
                            assert(describes(start_fen@, p) && playable(p));
                            let q = choose|q: Position| #[trigger]
                                fields_describe(words(start_fen@), q) && !playable(q);
                            describes_once(words(start_fen@), p, q);
                        }
                    }
                }
                return None;
            },
        };
        let n: usize = moves.len();
        if n > 65000 || p.halfmove_clock as usize + n + 128 > 65535 || p.fullmove as usize + n + 128
            > 65535 {
            proof {
                assert forall|q: Position| #[trigger] starts_in(start_fen@, q) implies q == p by {
                    if names_start(start_fen@) || fen_fits(start_fen@) && fen_error(start_fen@) is Some {
                        start_once(p, q);
                    } else {
                        describes_once(words(start_fen@), p, q);
                    }
                }
            }
            return None;
        }
        let names: Vec<Vec<char>> = spell(moves);
        let g: Game = play_named(&p, &names);
        assert(starts_in(start_fen@, p));
        proof {
            line_hashes_len(p, named_line(p, spelled(moves@)));
        }
        self.info.hash_history = g.hashes;
        self.info.game_history_len = self.info.hash_history.len();
        Some(g.pos)
    }

    /// Gives a move for a position: the start of a game, and the moves that were
    /// played from it. The books are asked before anything is searched.
    pub fn search_position(
        &mut self,
        start_fen: &str,
        moves: &[&str],
        limits: EmbeddedLimits,
        cancel: &AtomicBool,
    ) -> (r: Reply)
        requires
            old(self).wf(),
            limits.budget.wf(),
        ensures
            final(self).wf(),
            match r {
                Reply::Unplayable => *final(self) == *old(self) && !has_room(
                    start_fen@,
                    moves@.len() as int,
                ),
                Reply::Done(o) => has_room(start_fen@, moves@.len() as int) && exists|p: Position|
                    #[trigger]
                    starts_in(start_fen@, p) && ({
                        let l = named_line(p, spelled(moves@));
                        let q = after_line(p, l);
                        let i = old(self).info;
                        let f = final(self).info;
                        &&& legal_line(p, l)
                        &&& o.best.0 != 0 ==> legal(q, o.best)
                        &&& *final(self) == (EmbeddedEngine {
                            info: f,
                            exp_rng: old(self).rng_after(limits),
                            ..*old(self)
                        })
                        &&& f.hash_history@ == line_hashes(p, l)
                        &&& f.game_history_len == l.len() + 1
                        &&& match old(self).known_move(q, limits) {
                            Some(m) => legal(q, m) && from_book(o, m) && f == (SearchInfo {
                                hash_history: f.hash_history,
                                game_history_len: f.game_history_len,
                                ..i
                            }),
                            None => limited_search(
                                i,
                                f,
                                Mind { hashes: line_hashes(p, l), ..i.mind() },
                                l.len() as int + 1,
                                q,
                                limits,
                                o,
                            ) && same_setup(
                                SearchInfo { game_history_len: f.game_history_len, ..i },
                                f,
                            ),
                        }
                    }),
            },
    {
        let mut pos: Position = match self.set_up(start_fen, moves) {
            Some(p) => p,
            None => {
                return Reply::Unplayable;
            },
        };
        let ghost p = choose|p: Position| #[trigger]
            starts_in(start_fen@, p) && ({
                let l = named_line(p, spelled(moves@));
                &&& pos == after_line(p, l)
                &&& legal_line(p, l)
                &&& self.info.hash_history@ == line_hashes(p, l)
                &&& self.info.game_history_len == l.len() + 1
            });
        proof {
            line_hashes_len(p, named_line(p, spelled(moves@)));
            assert(starts_in(start_fen@, p));
        }
        let ghost known = old(self).known_move(pos, limits);
        assert(known == self.known_move(pos, limits));
        if let Some(m) = self.book_move(&mut pos, &limits) {
            return Reply::Done(book_outcome(m));
        }
        let ghost ready = self.info;
        assert(ready.mind() =~= (Mind { hashes: ready.hash_history@, ..old(self).info.mind() }));
        let o: SearchOutcome = search_embedded(&mut pos, &mut self.info, limits, cancel);
        proof {
            let h = ready.hash_history@;
            assert(h.take(h.len() as int) =~= h);
        }
        Reply::Done(o)
    }
}

/// Texts as sequences of characters.
pub open spec fn spelled(m: Seq<&str>) -> Seq<Seq<char>> {
    Seq::new(m.len(), |i: int| m[i]@)
}

fn spell(m: &[&str]) -> (v: Vec<Vec<char>>)
    ensures
        texts(v@) == spelled(m@),
        v@.len() == m@.len(),
{
    let mut v: Vec<Vec<char>> = Vec::new();
    let mut i: usize = 0;
    while i < m.len()
        invariant
            i <= m@.len(),
            v@.len() == i,
            forall|k: int| 0 <= k < i ==> (#[trigger] v@[k])@ == m@[k]@,
        decreases m@.len() - i,
    {
        v.push(chars_of(m[i]));
        i = i + 1;
    }
    assert(texts(v@) =~= spelled(m@));
    v
}

proof fn line_hashes_len(p: Position, l: Seq<Move>)
    ensures
        line_hashes(p, l).len() == l.len() + 1,
    decreases l.len(),
{
    if l.len() > 0 {
        line_hashes_len(crate::board::after(p, l[0]), l.drop_first());
    }
}

/// A game of `n` moves from the text can be played and searched: its position
/// can be played on, and its counters have room.
pub open spec fn has_room(fen: Seq<char>, n: int) -> bool {
    exists|p: Position| #[trigger] starts_in(fen, p) && n <= 65000 && p.clock_room(n + 128)
}

/// Only the remembered hashes differ.
pub open spec fn same_setup_but_history(a: EmbeddedEngine, b: EmbeddedEngine) -> bool {
    b == (EmbeddedEngine {
        info: SearchInfo {
            hash_history: b.info.hash_history,
            game_history_len: b.info.game_history_len,
            ..a.info
        },
        ..a
    })
}

} // verus!
