//! Endgame tablebases.

use crate::bitboard::{popcount, squares};
use crate::board::Position;
use crate::fen::fen_text;
use crate::text::{parts, split_on, text_of, texts, trim, trimmed};
use crate::types::chars_of;
use shakmaty::{CastlingMode, Chess};
use shakmaty::fen::Fen;
use shakmaty_syzygy::Tablebase;
use vstd::prelude::*;

verus! {

// ---- The tablebase library ----
/// A collection of tables, `shakmaty_syzygy::Tablebase`. What it holds is on
/// disk and not known here.
#[verifier::external_body]
pub struct Tables {
    inner: Tablebase<Chess>,
}

/// The largest number of pieces of the tables in a collection.
pub uninterp spec fn largest_table(t: Tables) -> nat;

/// The text is a FEN of a position of standard chess: `shakmaty::fen::Fen` parses
/// it, and `Fen::into_position` sets it up.
pub uninterp spec fn sets_up(t: Seq<char>) -> bool;

/// `Tablebase::new`: a collection without tables.
#[verifier::external_body]
fn no_tables() -> (t: Tables)
    ensures
        largest_table(t) == 0,
{
    Tables { inner: Tablebase::new() }
}

/// `Tablebase::add_directory`: adds the tables of a directory. It gives their
/// number, or nothing where the directory cannot be read. Tables are only added.
#[verifier::external_body]
fn add_tables(t: &mut Tables, dir: &str) -> (r: Option<usize>)
    ensures
        largest_table(*final(t)) >= largest_table(*old(t)),
{
    t.inner.add_directory(dir).ok()
}

/// `Tablebase::max_pieces`: the largest number of pieces over all tables.
#[verifier::external_body]
fn largest_of(t: &Tables) -> (n: usize)
    ensures
        n == largest_table(*t),
{
    t.inner.max_pieces()
}

/// `Tablebase::probe_wdl_after_zeroing` for the position of a FEN: the sign of its
/// result directly after a capture or pawn move. Nothing where the text does not
/// set up a position, or a table is missing. What the tables hold is on disk, so
/// of the sign only the range is stated.
#[verifier::external_body]
fn probe_zeroed(t: &Tables, fen: &str) -> (r: Option<i32>)
    ensures
        r matches Some(v) ==> -1 <= v <= 1 && sets_up(fen@),
{
    let p: Chess = fen.parse::<Fen>().ok()?.into_position(CastlingMode::Standard).ok()?;
    t.inner.probe_wdl_after_zeroing(&p).ok().map(|w| w.signum())
}

/// `Tablebase::probe_wdl` for the position of a FEN: the sign of its result with
/// the halfmove counter of the text. Nothing where the text does not set up a
/// position, or a table is missing. What the tables hold is on disk, so of the sign
/// only the range is stated.
#[verifier::external_body]
fn probe_with_counter(t: &Tables, fen: &str) -> (r: Option<i32>)
    ensures
        r matches Some(v) ==> -1 <= v <= 1 && sets_up(fen@),
{
    let p: Chess = fen.parse::<Fen>().ok()?.into_position(CastlingMode::Standard).ok()?;
    t.inner.probe_wdl(&p).ok().map(|w| w.signum())
}

/// `Tablebase::best_move` for the position of a FEN: the recommended move in the
/// notation of UCI. Nothing where the text does not set up a position, a table is
/// missing or no move is left. What the tables hold is on disk, so nothing is
/// stated of the move.
#[verifier::external_body]
fn recommended(t: &Tables, fen: &str) -> (r: Option<String>)
    ensures
        r is Some ==> sets_up(fen@),
{
    let p: Chess = fen.parse::<Fen>().ok()?.into_position(CastlingMode::Standard).ok()?;
    t.inner.best_move(&p).ok().flatten().map(|m| m.0.to_uci(CastlingMode::Standard).to_string())
}

// ---- The engine's tablebases ----
/// What became of a directory of tables: how many files were added, or that it
/// could not be read.
pub struct DirReport {
    pub dir: String,
    pub files: Option<usize>,
}

/// The tablebases in use, and when they are probed.
pub struct Tablebases {
    pub tables: Option<Tables>,
    pub max_pieces: usize,
    pub probe_limit: usize,
    pub probe_depth: usize,
    pub use_50move: bool,
}

/// The directories of a list that is separated by semicolons.
pub open spec fn directories(path: Seq<Seq<char>>) -> Seq<Seq<char>>
    decreases path.len(),
{
    if path.len() == 0 {
        Seq::empty()
    } else {
        let d = directories(path.drop_last());
        let last = trimmed(path.last());
        if last.len() == 0 {
            d
        } else {
            d.push(last)
        }
    }
}

/// The directories that the reports are about.
pub open spec fn reported(r: Seq<DirReport>) -> Seq<Seq<char>> {
    Seq::new(r.len(), |i: int| r[i].dir@)
}

/// How many pieces stand on the board.
pub open spec fn piece_count(p: Position) -> int {
    squares(p.colors@[0] | p.colors@[1]).len() as int
}

/// No tables, and the default settings.
pub open spec fn default_tablebases() -> Tablebases {
    Tablebases {
        tables: None,
        max_pieces: 0,
        probe_limit: 6,
        probe_depth: 1,
        use_50move: true,
    }
}

impl Tablebases {
    pub open spec fn wf(&self) -> bool {
        match self.tables {
            Some(t) => self.max_pieces == largest_table(t),
            None => self.max_pieces == 0,
        }
    }

    /// The position is one that the settings let probe.
    pub open spec fn covers(&self, p: Position) -> bool {
        self.max_pieces > 0 && piece_count(p) <= self.probe_limit
    }

    /// No tables, and the default settings.
    pub fn new() -> (t: Tablebases)
        ensures
            t.wf(),
            t == default_tablebases(),
    {
        Tablebases {
            tables: None,
            max_pieces: 0,
            probe_limit: 6,
            probe_depth: 1,
            use_50move: true,
        }
    }

    /// Opens the tables of a list of directories. The probe limit is lowered to
    /// what the tables hold.
    pub fn init(&mut self, path: &str) -> (reports: Vec<DirReport>)
        ensures
            final(self).wf(),
            final(self).tables is Some,
            reported(reports@) == directories(parts(path@, ';')),
            final(self).probe_limit == (if old(self).probe_limit > final(self).max_pieces {
                final(self).max_pieces
            } else {
                old(self).probe_limit
            }),
            final(self).probe_depth == old(self).probe_depth,
            final(self).use_50move == old(self).use_50move,
            reports@.len() == 0 ==> final(self).max_pieces == 0,
    {
        let mut t: Tables = no_tables();
        let dirs: Vec<Vec<char>> = split_on(&chars_of(path), ';');
        let mut reports: Vec<DirReport> = Vec::new();
        let mut i: usize = 0;
        let ghost all = parts(path@, ';');
        assert(all.take(0) =~= Seq::empty());
        assert(reported(reports@) =~= directories(all.take(0)));
        while i < dirs.len()
            invariant
                i <= dirs@.len(),
                texts(dirs@) == all,
                dirs@.len() == all.len(),
                reported(reports@) == directories(all.take(i as int)),
                reports@.len() == 0 ==> largest_table(t) == 0,
            decreases dirs@.len() - i,
        {
            let d: Vec<char> = trim(&dirs[i]);
            proof {
                assert(texts(dirs@)[i as int] == dirs@[i as int]@);
                assert(all.take(i + 1).drop_last() =~= all.take(i as int));
                assert(all.take(i + 1).last() == all[i as int]);
            }
            if d.len() > 0 {
                let dir: String = text_of(&d);
                let files: Option<usize> = add_tables(&mut t, dir.as_str());
                let ghost before = reports@;
                reports.push(DirReport { dir, files });
                assert(reported(reports@) =~= reported(before).push(d@));
            }
            i = i + 1;
        }
        assert(all.take(i as int) =~= all);
        self.max_pieces = largest_of(&t);
        if self.probe_limit > self.max_pieces {
            self.probe_limit = self.max_pieces;
        }
        self.tables = Some(t);
        reports
    }

    /// Sets the largest number of pieces to probe.
    pub fn set_probe_limit(&mut self, limit: usize)
        ensures
            *final(self) == (Tablebases { probe_limit: limit, ..*old(self) }),
    {
        self.probe_limit = limit;
    }

    /// Sets the least depth at which the search probes.
    pub fn set_probe_depth(&mut self, depth: usize)
        ensures
            *final(self) == (Tablebases { probe_depth: depth, ..*old(self) }),
    {
        self.probe_depth = depth;
    }

    /// Sets whether the fifty-move rule counts.
    pub fn set_50move_rule(&mut self, val: bool)
        ensures
            *final(self) == (Tablebases { use_50move: val, ..*old(self) }),
    {
        self.use_50move = val;
    }

    /// The least depth at which the search probes.
    pub fn probe_depth(&self) -> (d: usize)
        ensures
            d == self.probe_depth,
    {
        self.probe_depth
    }

    fn sign_of(&self, fen: &str) -> (r: Option<i32>)
        ensures
            r matches Some(v) ==> -1 <= v <= 1 && sets_up(fen@),
            self.tables is None ==> r is None,
    {
        match &self.tables {
            Some(t) => if self.use_50move {
                probe_zeroed(t, fen)
            } else {
                probe_with_counter(t, fen)
            },
            None => None,
        }
    }

    /// The text that the tables are asked with: the FEN of the position, if the
    /// settings let it be probed.
    pub fn text_to_probe(&self, pos: &Position) -> (r: Option<String>)
        requires
            pos.wf_boards(),
            pos.ep_square <= 64,
        ensures
            match r {
                Some(t) => self.covers(*pos) && t@ == fen_text(*pos),
                None => !self.covers(*pos),
            },
    {
        if self.max_pieces == 0 {
            return None;
        }
        let count: usize = popcount(pos.colors[0] | pos.colors[1]) as usize;
        if count > self.probe_limit {
            return None;
        }
        Some(pos.to_fen())
    }

    /// The result of a position: 1 for a win, 0 for a draw, -1 for a loss.
    /// Positions that the settings exclude have none.
    pub fn probe_wdl(&self, pos: &Position) -> (r: Option<i32>)
        requires
            pos.wf_boards(),
            pos.ep_square <= 64,
        ensures
            !self.covers(*pos) || self.tables is None ==> r is None,
            r matches Some(v) ==> -1 <= v <= 1 && sets_up(fen_text(*pos)),
    {
        match self.text_to_probe(pos) {
            Some(t) => self.sign_of(t.as_str()),
            None => None,
        }
    }

    /// The recommended move of a position in the notation of UCI, with the
    /// result, as far as the tables know both. Positions that the settings exclude
    /// have none.
    pub fn probe_root(&self, pos: &Position) -> (r: Option<(String, i32)>)
        requires
            pos.wf_boards(),
            pos.ep_square <= 64,
        ensures
            !self.covers(*pos) || self.tables is None ==> r is None,
            r matches Some(v) ==> -1 <= v.1 <= 1 && sets_up(fen_text(*pos)),
    {
        let text: String = match self.text_to_probe(pos) {
            Some(t) => t,
            None => {
                return None;
            },
        };
        let wdl: i32 = match self.sign_of(text.as_str()) {
            Some(w) => w,
            None => {
                return None;
            },
        };
        match &self.tables {
            Some(t) => root_result(Some(wdl), recommended(t, text.as_str())),
            None => None,
        }
    }
}

/// The move of a root probe with its result, where the tables give both.
pub fn root_result(wdl: Option<i32>, mv: Option<String>) -> (r: Option<(String, i32)>)
    ensures
        match r {
            Some(x) => mv == Some(x.0) && wdl == Some(x.1),
            None => mv is None || wdl is None,
        },
{
    match (mv, wdl) {
        (Some(m), Some(w)) => Some((m, w)),
        _ => None,
    }
}

} // verus!
