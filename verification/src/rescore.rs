//! New scores for training records: by tablebases, or by another engine.

use crate::bitboard::squares;
use crate::board::Position;
use crate::bytes::{le_bytes, push_le, to_unsigned16, unsigned16};
use crate::fen::fen_text;
use crate::game::{describes, describes_once, fields_describe, read_start, Start};
use crate::num::clamped;
use crate::records::{
    is_record, record_fen, record_occupancy, record_ok, record_pieces, unpack_to_fen, Unpacked,
};
use crate::rules::{playable, sound_facts};
use crate::tablebase::{sets_up, Tablebases};
use crate::text::{parse_i32, parsed_i32, split_words, texts, words};
use crate::types::chars_of;
use vstd::prelude::*;

verus! {

// ---- Records in a file ----
/// The record at an index.
pub open spec fn record_at(d: Seq<u8>, i: int) -> Seq<u8> {
    d.subrange(32 * i, 32 * i + 32)
}

/// All bytes are 0: padding, or a damaged record.
pub open spec fn is_blank(r: Seq<u8>) -> bool {
    forall|i: int| 0 <= i < r.len() ==> #[trigger] r[i] == 0
}

/// A record with another score.
pub open spec fn rescored(r: Seq<u8>, score: int) -> Seq<u8> {
    r.take(24) + le_bytes(unsigned16(score) as nat, 2) + r.skip(26)
}

/// The record at an index, as bytes of its own.
pub fn copy_record(d: &[u8], i: usize) -> (r: Vec<u8>)
    requires
        32 * i + 32 <= d@.len(),
    ensures
        r@ == record_at(d@, i as int),
        r@.len() == 32,
{
    let n: usize = d.len();
    assert(32 * i + 32 <= n);
    let mut r: Vec<u8> = Vec::new();
    let mut k: usize = 0;
    while k < 32
        invariant
            k <= 32,
            n == d@.len(),
            32 * i + 32 <= n,
            r@ == d@.subrange(32 * i, 32 * i + k),
        decreases 32 - k,
    {
        r.push(d[32 * i + k]);
        k = k + 1;
        assert(r@ =~= d@.subrange(32 * i, 32 * i + k));
    }
    r
}

/// Tests whether all bytes of a record are 0.
pub fn blank(r: &Vec<u8>) -> (b: bool)
    ensures
        b == is_blank(r@),
{
    let mut i: usize = 0;
    while i < r.len()
        invariant
            i <= r@.len(),
            forall|k: int| 0 <= k < i ==> #[trigger] r@[k] == 0,
        decreases r@.len() - i,
    {
        if r[i] != 0 {
            return false;
        }
        i = i + 1;
    }
    true
}

/// A record with another score.
pub fn with_score(r: &Vec<u8>, score: i16) -> (out: Vec<u8>)
    requires
        r@.len() == 32,
    ensures
        out@ == rescored(r@, score as int),
        out@.len() == 32,
{
    let mut out: Vec<u8> = Vec::new();
    let mut i: usize = 0;
    while i < 24
        invariant
            i <= 24,
            r@.len() == 32,
            out@ == r@.take(i as int),
        decreases 24 - i,
    {
        out.push(r[i]);
        i = i + 1;
        assert(out@ =~= r@.take(i as int));
    }
    push_le(&mut out, to_unsigned16(score), 2);
    let ghost head = out@;
    proof {
        crate::bytes::byte_limits();
        crate::bytes::bytes_roundtrip(unsigned16(score as int) as nat, 2);
    }
    let mut k: usize = 26;
    assert(r@.subrange(26, 26) =~= Seq::empty());
    assert(out@ =~= head + r@.subrange(26, 26));
    while k < 32
        invariant
            26 <= k <= 32,
            r@.len() == 32,
            out@ == head + r@.subrange(26, k as int),
        decreases 32 - k,
    {
        out.push(r[k]);
        k = k + 1;
        assert(out@ =~= head + r@.subrange(26, k as int));
    }
    assert(r@.subrange(26, 32) =~= r@.skip(26));
    assert(out@ =~= rescored(r@, score as int));
    out
}

/// A new score leaves the position and the result as they are.
pub proof fn rescoring_keeps_the_rest(r: Seq<u8>, score: int)
    requires
        r.len() == 32,
        -32768 <= score <= 32767,
    ensures
        rescored(r, score).len() == 32,
        forall|i: int|
            0 <= i < 32 && i != 24 && i != 25 ==> #[trigger] rescored(r, score)[i] == r[i],
        crate::records::record_score(rescored(r, score)) == score,
{
    crate::bytes::byte_limits();
    crate::bytes::bytes_roundtrip(unsigned16(score) as nat, 2);
    assert(rescored(r, score).subrange(24, 26) =~= le_bytes(unsigned16(score) as nat, 2));
}

// ---- Scores from tablebases ----
/// What became of a record.
#[derive(Clone, Copy, PartialEq, Eq, Structural, Debug)]
pub enum Label {
    Blank,
    /// The position has too many pieces.
    Above,
    /// The tablebases do not know the position.
    Unknown,
    /// The side to move wins, draws or loses.
    Win,
    Draw,
    Loss,
}

/// What a probe makes of a record.
pub open spec fn label_of(r: Seq<u8>, limit: int, probe: Option<int>) -> Label {
    if is_blank(r) {
        Label::Blank
    } else if squares(record_occupancy(r)).len() > limit {
        Label::Above
    } else {
        match probe {
            Some(v) => if v == 1 {
                Label::Win
            } else if v == -1 {
                Label::Loss
            } else {
                Label::Draw
            },
            None => Label::Unknown,
        }
    }
}

/// The record with the score that a label gives.
pub open spec fn labelled(r: Seq<u8>, l: Label, win_score: int) -> Seq<u8> {
    match l {
        Label::Win => rescored(r, win_score),
        Label::Draw => rescored(r, 0),
        Label::Loss => rescored(r, -win_score),
        _ => r,
    }
}

/// The label that a probe gives a record.
pub fn label(r: &Vec<u8>, limit: usize, probe: Option<i32>) -> (l: Label)
    requires
        r@.len() == 32,
    ensures
        l == label_of(
            r@,
            limit as int,
            match probe {
                Some(v) => Some(v as int),
                None => None,
            },
        ),
{
    if blank(r) {
        return Label::Blank;
    }
    if record_pieces(r.as_slice()) as usize > limit {
        return Label::Above;
    }
    match probe {
        Some(v) => if v == 1 {
            Label::Win
        } else if v == -1 {
            Label::Loss
        } else {
            Label::Draw
        },
        None => Label::Unknown,
    }
}

/// The record with the score that a label gives.
pub fn relabel(r: &Vec<u8>, l: Label, win_score: i16) -> (out: Vec<u8>)
    requires
        r@.len() == 32,
        win_score > i16::MIN,
    ensures
        out@ == labelled(r@, l, win_score as int),
        out@.len() == 32,
{
    match l {
        Label::Win => with_score(r, win_score),
        Label::Draw => with_score(r, 0),
        Label::Loss => with_score(r, 0 - win_score),
        _ => copy_record(r.as_slice(), 0),
    }
}

/// The position is that of a record, and can be played on.
pub open spec fn recorded(r: Seq<u8>, p: Position) -> bool {
    record_ok(r) && describes(record_fen(r), p) && playable(p)
}

/// Reads the position of a record. Nothing if there is none that can be played on.
pub fn record_position(r: &[u8]) -> (p: Option<Position>)
    ensures
        match p {
            Some(q) => recorded(r@, q),
            None => forall|q: Position| !#[trigger] recorded(r@, q),
        },
{
    if !is_record(r) {
        return None;
    }
    let u: Unpacked = unpack_to_fen(r);
    match read_start(&split_words(&chars_of(u.fen.as_str()))) {
        Start::Ready(pos) => Some(pos),
        _ => {
            proof {
                let f = words(record_fen(r@));
                assert forall|q: Position| !#[trigger] recorded(r@, q) by {
                    if recorded(r@, q) {
                        let x = choose|x: Position| #[trigger]
                            fields_describe(f, x) && !playable(x);
                        describes_once(f, x, q);
                    }
                }
            }
            None
        },
    }
}

/// Probes the position of a record.
fn probe_record(r: &Vec<u8>, tables: &Tablebases) -> (p: Option<i32>)
    requires
        r@.len() == 32,
    ensures
        p matches Some(v) ==> -1 <= v <= 1 && exists|q: Position| #[trigger]
            recorded(r@, q) && tables.covers(q) && sets_up(fen_text(q)),
        tables.tables is None ==> p is None,
{
    match record_position(r.as_slice()) {
        Some(pos) => {
            proof {
                sound_facts(pos);
                assert(recorded(r@, pos));
            }
            tables.probe_wdl(&pos)
        },
        None => None,
    }
}

/// How many records have got each label.
#[derive(Clone, Copy, PartialEq, Eq, Structural, Debug)]
pub struct Labels {
    pub blank: u64,
    pub above: u64,
    pub unknown: u64,
    pub win: u64,
    pub draw: u64,
    pub loss: u64,
}

impl Labels {
    pub open spec fn total(&self) -> int {
        self.blank + self.above + self.unknown + self.win + self.draw + self.loss
    }

    /// The counts after one more label.
    pub open spec fn with(&self, l: Label) -> Labels {
        match l {
            Label::Blank => Labels { blank: (self.blank + 1) as u64, ..*self },
            Label::Above => Labels { above: (self.above + 1) as u64, ..*self },
            Label::Unknown => Labels { unknown: (self.unknown + 1) as u64, ..*self },
            Label::Win => Labels { win: (self.win + 1) as u64, ..*self },
            Label::Draw => Labels { draw: (self.draw + 1) as u64, ..*self },
            Label::Loss => Labels { loss: (self.loss + 1) as u64, ..*self },
        }
    }

    fn count(&mut self, l: Label)
        requires
            old(self).total() < u64::MAX,
        ensures
            *final(self) == old(self).with(l),
            final(self).total() == old(self).total() + 1,
    {
        match l {
            Label::Blank => {
                self.blank = self.blank + 1;
            },
            Label::Above => {
                self.above = self.above + 1;
            },
            Label::Unknown => {
                self.unknown = self.unknown + 1;
            },
            Label::Win => {
                self.win = self.win + 1;
            },
            Label::Draw => {
                self.draw = self.draw + 1;
            },
            Label::Loss => {
                self.loss = self.loss + 1;
            },
        }
    }
}

fn append(out: &mut Vec<u8>, r: &Vec<u8>)
    ensures
        final(out)@ == old(out)@ + r@,
{
    let mut i: usize = 0;
    while i < r.len()
        invariant
            i <= r@.len(),
            out@ == old(out)@ + r@.take(i as int),
        decreases r@.len() - i,
    {
        out.push(r[i]);
        i = i + 1;
        assert(out@ =~= old(out)@ + r@.take(i as int));
    }
    assert(r@.take(i as int) =~= r@);
}

/// The tablebases can give this answer for a record: they know its position, and the
/// settings let it be probed.
pub open spec fn answerable(r: Seq<u8>, tables: Tablebases, probe: Option<int>) -> bool {
    probe matches Some(v) ==> {
        &&& -1 <= v <= 1
        &&& tables.tables is Some
        &&& exists|q: Position| #[trigger]
            recorded(r, q) && tables.covers(q) && sets_up(fen_text(q))
    }
}

/// Answers for the first records of a file.
pub open spec fn answers_for(d: Seq<u8>, tables: Tablebases, answers: Seq<Option<int>>) -> bool {
    forall|i: int|
        0 <= i < answers.len() ==> answerable(record_at(d, i), tables, #[trigger] answers[i])
}

/// The first records of a file with the scores that the answers give them.
pub open spec fn relabelled(
    d: Seq<u8>,
    answers: Seq<Option<int>>,
    limit: int,
    win_score: int,
) -> Seq<u8>
    decreases answers.len(),
{
    if answers.len() == 0 {
        Seq::empty()
    } else {
        let r = record_at(d, answers.len() - 1);
        relabelled(d, answers.drop_last(), limit, win_score) + labelled(
            r,
            label_of(r, limit, answers.last()),
            win_score,
        )
    }
}

/// How many of the first records get each label from the answers.
pub open spec fn tally(d: Seq<u8>, answers: Seq<Option<int>>, limit: int) -> Labels
    decreases answers.len(),
{
    if answers.len() == 0 {
        Labels { blank: 0, above: 0, unknown: 0, win: 0, draw: 0, loss: 0 }
    } else {
        tally(d, answers.drop_last(), limit).with(
            label_of(record_at(d, answers.len() - 1), limit, answers.last()),
        )
    }
}

/// Gives the positions of a file the scores of the tablebases. Blank records,
/// positions with more pieces than the limit and positions that the tablebases
/// do not know stay as they are.
pub fn rescore_by_tables(d: &[u8], tables: &Tablebases, win_score: i16, limit: usize) -> (r: (
    Vec<u8>,
    Labels,
))
    requires
        d@.len() % 32 == 0,
        win_score > i16::MIN,
    ensures
        r.0@.len() == d@.len(),
        r.1.total() == d@.len() / 32,
        exists|answers: Seq<Option<int>>| #[trigger]
            answers_for(d@, *tables, answers) && answers.len() == d@.len() / 32 && r.0@ == relabelled(
                d@,
                answers,
                limit as int,
                win_score as int,
            ) && r.1 == tally(d@, answers, limit as int),
{
    let mut out: Vec<u8> = Vec::new();
    let mut labels: Labels = Labels {
        blank: 0,
        above: 0,
        unknown: 0,
        win: 0,
        draw: 0,
        loss: 0,
    };
    let n: usize = d.len();
    let total: usize = n / 32;
    let mut i: usize = 0;
    let ghost mut answers: Seq<Option<int>> = Seq::empty();
    while i < total
        invariant
            n == d@.len(),
            n % 32 == 0,
            total == n / 32,
            i <= total,
            win_score > i16::MIN,
            out@.len() == 32 * i,
            labels.total() == i,
            answers.len() == i,
            answers_for(d@, *tables, answers),
            out@ == relabelled(d@, answers, limit as int, win_score as int),
            labels == tally(d@, answers, limit as int),
        decreases total - i,
    {
        let r: Vec<u8> = copy_record(d, i);
        let probe: Option<i32> = if blank(&r) || record_pieces(r.as_slice()) as usize > limit {
            None
        } else {
            probe_record(&r, tables)
        };
        let l: Label = label(&r, limit, probe);
        let x: Vec<u8> = relabel(&r, l, win_score);
        append(&mut out, &x);
        labels.count(l);
        proof {
            let p: Option<int> = match probe {
                Some(v) => Some(v as int),
                None => None,
            };
            let before = answers;
            answers = before.push(p);
            assert(answers.drop_last() =~= before);
            assert(l == label_of(r@, limit as int, p));
        }
        i = i + 1;
    }
    (out, labels)
}

// ---- Positions by their number of pieces ----
/// The record stays: it is not blank, and has at most so many pieces, or more.
pub open spec fn stays(r: Seq<u8>, max_pieces: int, above: bool) -> bool {
    !is_blank(r) && (if above {
        squares(record_occupancy(r)).len() > max_pieces
    } else {
        squares(record_occupancy(r)).len() <= max_pieces
    })
}

/// The records that stay, of the first `n`.
pub open spec fn staying(d: Seq<u8>, n: int, max_pieces: int, above: bool) -> Seq<u8>
    decreases n,
{
    if n <= 0 {
        Seq::empty()
    } else {
        let s = staying(d, n - 1, max_pieces, above);
        if stays(record_at(d, n - 1), max_pieces, above) {
            s + record_at(d, n - 1)
        } else {
            s
        }
    }
}

/// Keeps the records with at most so many pieces, or those with more, and tells
/// how many there are.
pub fn filter_by_pieces(d: &[u8], max_pieces: u32, above: bool) -> (r: (Vec<u8>, u64))
    requires
        d@.len() % 32 == 0,
    ensures
        r.0@ == staying(d@, d@.len() as int / 32, max_pieces as int, above),
        r.0@.len() == 32 * r.1,
{
    let mut out: Vec<u8> = Vec::new();
    let mut kept: u64 = 0;
    let n: usize = d.len();
    let total: usize = n / 32;
    let mut i: usize = 0;
    while i < total
        invariant
            n == d@.len(),
            total == n / 32,
            i <= total,
            kept <= i,
            out@.len() == 32 * kept,
            out@ == staying(d@, i as int, max_pieces as int, above),
        decreases total - i,
    {
        let r: Vec<u8> = copy_record(d, i);
        if !blank(&r) {
            let k: u32 = record_pieces(r.as_slice());
            if (above && k > max_pieces) || (!above && k <= max_pieces) {
                append(&mut out, &r);
                kept = kept + 1;
            }
        }
        i = i + 1;
    }
    (out, kept)
}

// ---- Scores from another engine ----
/// The first place from `i` on where a text holds a pattern; nothing if none.
pub open spec fn find_from(t: Seq<char>, pat: Seq<char>, i: int) -> Option<int>
    decreases t.len() + 1 - i,
{
    if i + pat.len() > t.len() {
        None
    } else if t.subrange(i, i + pat.len()) == pat {
        Some(i)
    } else {
        find_from(t, pat, i + 1)
    }
}

/// The number in the first word of a text.
pub open spec fn first_number(t: Seq<char>) -> Option<i32> {
    if words(t).len() > 0 {
        parsed_i32(words(t)[0])
    } else {
        None
    }
}

/// What a line of an engine says.
#[derive(Clone, Copy, PartialEq, Eq, Structural, Debug)]
pub enum EngineLine {
    /// The search is over.
    Best,
    /// A score, as the side to move sees it.
    Score(i32),
    Other,
}

/// The score of a mate in so many moves.
pub open spec fn mate_value(v: int) -> int {
    if v > 0 {
        30000 - v
    } else {
        -30000 - v
    }
}

/// What a line of an engine says. A score in centipawns comes first; where its
/// number cannot be read the line says nothing.
pub open spec fn line_says(t: Seq<char>) -> EngineLine {
    let cp = find_from(t, "score cp "@, 0);
    let mate = find_from(t, "score mate "@, 0);
    if t.len() >= 8 && t.take(8) == "bestmove"@ {
        EngineLine::Best
    } else if cp is Some {
        match first_number(t.skip(cp->0 + 9)) {
            Some(v) => EngineLine::Score(v),
            None => EngineLine::Other,
        }
    } else if mate is Some {
        match first_number(t.skip(mate->0 + 11)) {
            Some(v) => EngineLine::Score(mate_value(v as int) as i32),
            None => EngineLine::Other,
        }
    } else {
        EngineLine::Other
    }
}

fn holds_at(t: &Vec<char>, pat: &Vec<char>, i: usize) -> (b: bool)
    requires
        i + pat@.len() <= t@.len(),
    ensures
        b == (t@.subrange(i as int, i + pat@.len()) == pat@),
{
    let m: usize = pat.len();
    let n: usize = t.len();
    let mut k: usize = 0;
    while k < m
        invariant
            m == pat@.len(),
            n == t@.len(),
            i + m <= n,
            k <= m,
            forall|j: int| 0 <= j < k ==> t@[i + j] == #[trigger] pat@[j],
        decreases m - k,
    {
        if t[i + k] != pat[k] {
            assert(t@.subrange(i as int, i + pat@.len())[k as int] != pat@[k as int]);
            return false;
        }
        k = k + 1;
    }
    assert(t@.subrange(i as int, i + pat@.len()) =~= pat@);
    true
}

fn find(t: &Vec<char>, pat: &Vec<char>) -> (r: Option<usize>)
    requires
        pat@.len() > 0,
    ensures
        match r {
            Some(i) => find_from(t@, pat@, 0) == Some(i as int) && i + pat@.len() <= t@.len(),
            None => find_from(t@, pat@, 0) is None,
        },
{
    let m: usize = pat.len();
    let n: usize = t.len();
    if m > n {
        return None;
    }
    let mut i: usize = 0;
    while i <= n - m
        invariant
            m == pat@.len(),
            n == t@.len(),
            m <= n,
            0 < m,
            i <= n - m + 1,
            find_from(t@, pat@, i as int) == find_from(t@, pat@, 0),
        decreases n - i,
    {
        if holds_at(t, pat, i) {
            return Some(i);
        }
        i = i + 1;
    }
    None
}

fn number_after(t: &Vec<char>, from: usize) -> (r: Option<i32>)
    requires
        from <= t@.len(),
    ensures
        r == first_number(t@.skip(from as int)),
{
    let mut rest: Vec<char> = Vec::new();
    let mut i: usize = from;
    while i < t.len()
        invariant
            from <= i <= t@.len(),
            rest@ == t@.subrange(from as int, i as int),
        decreases t@.len() - i,
    {
        rest.push(t[i]);
        i = i + 1;
        assert(rest@ =~= t@.subrange(from as int, i as int));
    }
    assert(rest@ =~= t@.skip(from as int));
    let w: Vec<Vec<char>> = split_words(&rest);
    if w.len() > 0 {
        assert(texts(w@)[0] == w@[0]@);
        parse_i32(&w[0])
    } else {
        assert(texts(w@).len() == 0);
        None
    }
}

/// Reads a line of an engine.
pub fn read_line(line: &str) -> (l: EngineLine)
    ensures
        l == line_says(line@),
{
    proof {
        reveal_strlit("bestmove");
        reveal_strlit("score cp ");
        reveal_strlit("score mate ");
    }
    let t: Vec<char> = chars_of(line);
    let best: Vec<char> = chars_of("bestmove");
    if t.len() >= 8 && holds_at(&t, &best, 0) {
        assert(t@.subrange(0, 8) =~= t@.take(8));
        return EngineLine::Best;
    }
    proof {
        if t@.len() >= 8 {
            assert(t@.subrange(0, 8) =~= t@.take(8));
        }
    }
    if let Some(i) = find(&t, &chars_of("score cp ")) {
        return match number_after(&t, i + 9) {
            Some(v) => EngineLine::Score(v),
            None => EngineLine::Other,
        };
    }
    if let Some(i) = find(&t, &chars_of("score mate ")) {
        return match number_after(&t, i + 11) {
            Some(v) => EngineLine::Score(
                if v > 0 {
                    30000 - v
                } else {
                    -30000 - v
                },
            ),
            None => EngineLine::Other,
        };
    }
    EngineLine::Other
}

/// The score that is written for the last score of an engine.
pub fn final_score(last: i32) -> (s: i16)
    ensures
        s == clamped(last as int, -32000, 32000),
{
    if last < -32000 {
        -32000
    } else if last > 32000 {
        32000
    } else {
        last as i16
    }
}

/// Listens to an engine that scores a position.
#[derive(Clone, Copy, PartialEq, Eq, Structural, Debug)]
pub struct Listener {
    pub last: i32,
}

impl Listener {
    /// Nothing has been heard yet.
    pub fn new() -> (l: Listener)
        ensures
            l.last == 0,
    {
        Listener { last: 0 }
    }

    /// Takes a line, and gives the score when the search is over.
    pub fn hear(&mut self, line: &str) -> (r: Option<i16>)
        ensures
            match line_says(line@) {
                EngineLine::Best => r matches Some(s) && s == clamped(
                    old(self).last as int,
                    -32000,
                    32000,
                ) && *final(self) == *old(self),
                EngineLine::Score(v) => r is None && final(self).last == v,
                EngineLine::Other => r is None && *final(self) == *old(self),
            },
    {
        match read_line(line) {
            EngineLine::Best => Some(final_score(self.last)),
            EngineLine::Score(v) => {
                self.last = v;
                None
            },
            EngineLine::Other => None,
        }
    }
}

/// What to do after an engine has failed to score a position.
#[derive(Clone, Copy, PartialEq, Eq, Structural, Debug)]
pub enum AfterFailure {
    Retry,
    /// The position keeps its score.
    Skip,
}

/// Decides what to do after so many failures: once more with a new engine, then
/// the position is skipped. Without a new engine it is skipped at once.
pub fn after_failure(failures: u32, restarted: bool) -> (a: AfterFailure)
    ensures
        a == (if restarted && failures < 2 {
            AfterFailure::Retry
        } else {
            AfterFailure::Skip
        }),
{
    if restarted && failures < 2 {
        AfterFailure::Retry
    } else {
        AfterFailure::Skip
    }
}

// ---- Jobs that can be resumed ----
/// How far an earlier run has come.
#[derive(Clone, Copy, PartialEq, Eq, Structural, Debug)]
pub struct Resume {
    /// How many bytes of the output are whole records.
    pub valid: u64,
    /// How many records are done.
    pub done: u64,
    /// Nothing is left to do.
    pub complete: bool,
}

/// How far a run has come that has written so many bytes. Part of a record at
/// the end is written anew.
pub fn resume_at(out_size: u64, total: u64) -> (r: Resume)
    ensures
        r.valid == 32 * (out_size as int / 32),
        r.done == out_size as int / 32,
        r.complete == (r.done >= total),
{
    let valid: u64 = out_size - out_size % 32;
    Resume { valid, done: valid / 32, complete: valid / 32 >= total }
}

/// A job: the records that are left, which of them are done, and how many of
/// those have been written.
pub struct Job {
    pub input: Vec<u8>,
    pub output: Vec<Vec<u8>>,
    pub done: Vec<bool>,
    pub next: usize,
    pub written: usize,
}

impl Job {
    pub open spec fn wf(&self) -> bool {
        &&& self.input@.len() == 32 * self.done@.len()
        &&& self.output@.len() == self.done@.len()
        &&& self.next <= self.done@.len()
        &&& self.written <= self.done@.len()
        &&& forall|i: int|
            0 <= i < self.output@.len() ==> (#[trigger] self.output@[i])@.len() == 32
        &&& forall|i: int| 0 <= i < self.written ==> #[trigger] self.done@[i]
        &&& forall|i: int| self.next <= i < self.done@.len() ==> !#[trigger] self.done@[i]
        &&& forall|i: int|
            0 <= i < self.done@.len() && !#[trigger] self.done@[i] ==> self.output@[i]@
                == record_at(self.input@, i)
    }

    /// A job on the records of a file from an index on. Until they are done they
    /// keep their scores.
    pub fn new(data: &[u8], from: usize) -> (j: Job)
        requires
            data@.len() % 32 == 0,
            32 * from <= data@.len(),
        ensures
            j.wf(),
            j.input@ == data@.skip(32 * from),
            j.next == 0,
            j.written == 0,
    {
        let n: usize = data.len();
        let mut input: Vec<u8> = Vec::new();
        let mut i: usize = 32 * from;
        while i < n
            invariant
                n == data@.len(),
                32 * from <= i <= n,
                input@ == data@.subrange(32 * from, i as int),
            decreases n - i,
        {
            input.push(data[i]);
            i = i + 1;
            assert(input@ =~= data@.subrange(32 * from, i as int));
        }
        assert(input@ =~= data@.skip(32 * from));
        let m: usize = input.len() / 32;
        let len: usize = input.len();
        let mut output: Vec<Vec<u8>> = Vec::new();
        let mut done: Vec<bool> = Vec::new();
        let mut k: usize = 0;
        while k < m
            invariant
                len == input@.len(),
                len == 32 * m,
                k <= m,
                output@.len() == k,
                done@.len() == k,
                forall|x: int|
                    0 <= x < k ==> (#[trigger] output@[x])@ == record_at(input@, x)
                        && output@[x]@.len() == 32,
                forall|x: int| 0 <= x < k ==> !#[trigger] done@[x],
            decreases m - k,
        {
            output.push(copy_record(input.as_slice(), k));
            done.push(false);
            k = k + 1;
        }
        Job { input, output, done, next: 0, written: 0 }
    }

    /// Takes the next record to work on.
    pub fn take(&mut self) -> (r: Option<usize>)
        requires
            old(self).wf(),
        ensures
            final(self).wf(),
            match r {
                Some(i) => i == old(self).next && i < old(self).done@.len() && final(self).next == i
                    + 1,
                None => old(self).next == old(self).done@.len() && final(self).next == old(
                    self,
                ).next,
            },
            *final(self) == (Job { next: final(self).next, ..*old(self) }),
    {
        if self.next < self.done.len() {
            let i: usize = self.next;
            self.next = i + 1;
            Some(i)
        } else {
            None
        }
    }

    /// The FEN of a record; nothing for a blank or an unreadable one.
    pub fn fen_of(&self, i: usize) -> (r: Option<String>)
        requires
            self.wf(),
            i < self.done@.len(),
        ensures
            match r {
                Some(t) => !is_blank(record_at(self.input@, i as int)) && record_ok(
                    record_at(self.input@, i as int),
                ) && t@ == record_fen(record_at(self.input@, i as int)),
                None => is_blank(record_at(self.input@, i as int)) || !record_ok(
                    record_at(self.input@, i as int),
                ),
            },
    {
        let n: usize = self.input.len();
        assert(32 * i + 32 <= n);
        let r: Vec<u8> = copy_record(self.input.as_slice(), i);
        if blank(&r) || !is_record(r.as_slice()) {
            return None;
        }
        let u: Unpacked = unpack_to_fen(r.as_slice());
        Some(u.fen)
    }

    /// A record that was taken is done: with a new score, or with its old one.
    pub fn finish(&mut self, i: usize, score: Option<i16>)
        requires
            old(self).wf(),
            i < old(self).next,
            !old(self).done@[i as int],
        ensures
            final(self).wf(),
            final(self).done@ == old(self).done@.update(i as int, true),
            final(self).input == old(self).input,
            final(self).next == old(self).next,
            final(self).written == old(self).written,
            final(self).output@.len() == old(self).output@.len(),
            final(self).output@[i as int]@ == (match score {
                Some(s) => rescored(record_at(old(self).input@, i as int), s as int),
                None => record_at(old(self).input@, i as int),
            }),
            forall|k: int|
                0 <= k < old(self).output@.len() && k != i ==> #[trigger] final(self).output@[k]
                    == old(self).output@[k],
    {
        if let Some(s) = score {
            let x: Vec<u8> = with_score(&self.output[i], s);
            self.output.set(i, x);
        }
        self.done.set(i, true);
    }

    /// How far the records are done without a gap.
    pub open spec fn prefix_from(&self, i: int) -> int
        decreases self.done@.len() - i,
    {
        if i >= self.done@.len() || !self.done@[i] {
            i
        } else {
            self.prefix_from(i + 1)
        }
    }

    /// The records that are done and not yet written, as far as there is no gap.
    pub open spec fn ready(&self, from: int, to: int) -> Seq<u8>
        decreases to - from,
    {
        if to <= from {
            Seq::empty()
        } else {
            self.ready(from, to - 1) + self.output@[to - 1]@
        }
    }

    /// The bytes to append to the output, and where they end.
    pub fn checkpoint(&self) -> (r: (Vec<u8>, usize))
        requires
            self.wf(),
        ensures
            r.1 == self.prefix_from(self.written as int),
            self.written <= r.1 <= self.done@.len(),
            r.0@ == self.ready(self.written as int, r.1 as int),
            r.0@.len() == 32 * (r.1 - self.written),
    {
        let mut out: Vec<u8> = Vec::new();
        let mut i: usize = self.written;
        while i < self.done.len() && self.done[i]
            invariant
                self.wf(),
                self.written <= i <= self.done@.len(),
                self.prefix_from(i as int) == self.prefix_from(self.written as int),
                out@ == self.ready(self.written as int, i as int),
                out@.len() == 32 * (i - self.written),
            decreases self.done@.len() - i,
        {
            append(&mut out, &self.output[i]);
            i = i + 1;
        }
        (out, i)
    }

    /// The records up to an index have been written.
    pub fn wrote(&mut self, to: usize)
        requires
            old(self).wf(),
            old(self).written <= to <= old(self).prefix_from(old(self).written as int),
        ensures
            final(self).wf(),
            *final(self) == (Job { written: to, ..*old(self) }),
    {
        proof {
            prefix_is_done(*self, self.written as int);
        }
        self.written = to;
    }
}

proof fn prefix_is_done(j: Job, i: int)
    requires
        0 <= i <= j.done@.len(),
    ensures
        i <= j.prefix_from(i) <= j.done@.len(),
        forall|k: int| i <= k < j.prefix_from(i) ==> #[trigger] j.done@[k],
    decreases j.done@.len() - i,
{
    if i < j.done@.len() && j.done@[i] {
        prefix_is_done(j, i + 1);
    }
}

/// Checkpoints join without a gap: what two of them write, one after the other,
/// is what one would have written.
pub proof fn checkpoints_join(j: Job, a: int, b: int, c: int)
    requires
        a <= b <= c,
    ensures
        j.ready(a, b) + j.ready(b, c) == j.ready(a, c),
    decreases c - b,
{
    if b < c {
        checkpoints_join(j, a, b, c - 1);
        assert(j.ready(a, b) + j.ready(b, c) =~= (j.ready(a, b) + j.ready(b, c - 1)) + j.output@[c
            - 1]@);
    } else {
        assert(j.ready(a, b) + j.ready(b, c) =~= j.ready(a, c));
    }
}

} // verus!
