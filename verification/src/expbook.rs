//! Experience books: a header of 32 bytes and entries of 32 bytes each.

use crate::board::Position;
use crate::book::{
    ascending, bisected, bisected_is_first, decode_poly_move, decoded, decoded_is_legal, not_below, poly_hash,
    polyglot_hash,
};
use crate::bytes::{
    byte_limits, bytes_roundtrip, le_bytes, le_num, push_le, read_le, read_le16, read_le_i16,
    signed16, to_unsigned16, unsigned16,
};
use crate::num::{at_least, at_most};
use crate::rules::{legal, playable, sound_facts};
use crate::types::Move;
use vstd::prelude::*;

verus! {

/// The score of an entry without one.
pub const EXP_SCORE_NONE: i16 = -32768;

/// Source bit of this engine's judgements.
pub const EXP_SOURCE_ENGINE: u8 = 0x20;

/// Source bit of self-play games.
pub const EXP_SOURCE_SELFPLAY: u8 = 0x08;

/// Source bit of the analysis engine that owns `jug_score`.
pub const EXP_SOURCE_JUGERNAUT: u8 = 0x02;

/// Source bit of the engine that owns `sf_score`.
pub const EXP_SOURCE_STOCKFISH: u8 = 0x04;

/// Flag of a move that a completed search has written.
pub const EXP_FLAG_VALIDATED: u8 = 0x01;

/// Flag of a score that is a mate.
pub const EXP_FLAG_MATE: u8 = 0x10;

/// Header flag of sorted entries.
pub const HEADER_SORTED: u16 = 1;

/// Header flag of an overlay, which is only appended to.
pub const HEADER_OVERLAY: u16 = 2;

/// One judgement of a move in a position.
#[derive(Clone, Copy, PartialEq, Eq, Structural, Debug)]
pub struct ExpEntry {
    pub key: u64,
    pub packed_move: u16,
    pub score: i16,
    pub depth: i16,
    pub count: u16,
    pub source: u8,
    pub flags: u8,
    pub wdl_w: u16,
    pub wdl_l: u16,
    pub nnue_eval: i16,
    pub jug_score: i16,
    pub sf_score: i16,
    pub clrsrc_score: i16,
}

// ---- Entries as bytes ----
/// The two bytes of a signed number.
pub open spec fn i16_bytes(v: i16) -> Seq<u8> {
    le_bytes(unsigned16(v as int) as nat, 2)
}

/// The bytes of an entry.
pub open spec fn entry_bytes(e: ExpEntry) -> Seq<u8> {
    le_bytes(e.key as nat, 8) + le_bytes(e.packed_move as nat, 2) + i16_bytes(e.score) + i16_bytes(
        e.depth,
    ) + le_bytes(e.count as nat, 2) + seq![e.source, e.flags] + le_bytes(e.wdl_w as nat, 2)
        + le_bytes(e.wdl_l as nat, 2) + i16_bytes(e.nnue_eval) + i16_bytes(e.jug_score) + i16_bytes(
        e.sf_score,
    ) + i16_bytes(e.clrsrc_score) + seq![0u8, 0u8]
}

/// The unsigned number of two bytes at an offset.
pub open spec fn u16_at(d: Seq<u8>, off: int) -> u16 {
    le_num(d.subrange(off, off + 2)) as u16
}

/// The signed number of two bytes at an offset.
pub open spec fn i16_at(d: Seq<u8>, off: int) -> i16 {
    signed16(le_num(d.subrange(off, off + 2)) as int) as i16
}

/// The entry at an offset.
pub open spec fn entry_at(d: Seq<u8>, off: int) -> ExpEntry {
    ExpEntry {
        key: le_num(d.subrange(off, off + 8)) as u64,
        packed_move: u16_at(d, off + 8),
        score: i16_at(d, off + 10),
        depth: i16_at(d, off + 12),
        count: u16_at(d, off + 14),
        source: d[off + 16],
        flags: d[off + 17],
        wdl_w: u16_at(d, off + 18),
        wdl_l: u16_at(d, off + 20),
        nnue_eval: i16_at(d, off + 22),
        jug_score: i16_at(d, off + 24),
        sf_score: i16_at(d, off + 26),
        clrsrc_score: i16_at(d, off + 28),
    }
}

/// The lengths and the values of the bytes of a number.
proof fn number_bytes(v: u16, w: i16, k: u64)
    ensures
        le_bytes(v as nat, 2).len() == 2,
        le_num(le_bytes(v as nat, 2)) == v,
        i16_bytes(w).len() == 2,
        signed16(le_num(i16_bytes(w)) as int) == w,
        le_bytes(k as nat, 8).len() == 8,
        le_num(le_bytes(k as nat, 8)) == k,
{
    byte_limits();
    bytes_roundtrip(v as nat, 2);
    bytes_roundtrip(unsigned16(w as int) as nat, 2);
    bytes_roundtrip(k as nat, 8);
}

/// An entry is read back from its bytes, wherever they stand.
pub proof fn entry_roundtrip(d: Seq<u8>, off: int, e: ExpEntry)
    requires
        0 <= off,
        off + 32 <= d.len(),
        d.subrange(off, off + 32) == entry_bytes(e),
    ensures
        entry_bytes(e).len() == 32,
        entry_at(d, off) == e,
{
    let b = entry_bytes(e);
    entry_parts(e);
    assert(d.subrange(off, off + 8) =~= b.subrange(0, 8));
    assert(d.subrange(off + 8, off + 10) =~= b.subrange(8, 10));
    assert(d.subrange(off + 10, off + 12) =~= b.subrange(10, 12));
    assert(d.subrange(off + 12, off + 14) =~= b.subrange(12, 14));
    assert(d.subrange(off + 14, off + 16) =~= b.subrange(14, 16));
    assert(d[off + 16] == b[16]);
    assert(d[off + 17] == b[17]);
    assert(d.subrange(off + 18, off + 20) =~= b.subrange(18, 20));
    assert(d.subrange(off + 20, off + 22) =~= b.subrange(20, 22));
    assert(d.subrange(off + 22, off + 24) =~= b.subrange(22, 24));
    assert(d.subrange(off + 24, off + 26) =~= b.subrange(24, 26));
    assert(d.subrange(off + 26, off + 28) =~= b.subrange(26, 28));
    assert(d.subrange(off + 28, off + 30) =~= b.subrange(28, 30));
    number_bytes(e.packed_move, e.score, e.key);
    number_bytes(e.count, e.depth, e.key);
    number_bytes(e.wdl_w, e.nnue_eval, e.key);
    number_bytes(e.wdl_l, e.jug_score, e.key);
    number_bytes(e.wdl_l, e.sf_score, e.key);
    number_bytes(e.wdl_l, e.clrsrc_score, e.key);
}

/// The parts of the bytes of an entry.
proof fn entry_parts(e: ExpEntry)
    ensures
        ({
            let b = entry_bytes(e);
            &&& b.len() == 32
            &&& b.subrange(0, 8) == le_bytes(e.key as nat, 8)
            &&& b.subrange(8, 10) == le_bytes(e.packed_move as nat, 2)
            &&& b.subrange(10, 12) == i16_bytes(e.score)
            &&& b.subrange(12, 14) == i16_bytes(e.depth)
            &&& b.subrange(14, 16) == le_bytes(e.count as nat, 2)
            &&& b[16] == e.source
            &&& b[17] == e.flags
            &&& b.subrange(18, 20) == le_bytes(e.wdl_w as nat, 2)
            &&& b.subrange(20, 22) == le_bytes(e.wdl_l as nat, 2)
            &&& b.subrange(22, 24) == i16_bytes(e.nnue_eval)
            &&& b.subrange(24, 26) == i16_bytes(e.jug_score)
            &&& b.subrange(26, 28) == i16_bytes(e.sf_score)
            &&& b.subrange(28, 30) == i16_bytes(e.clrsrc_score)
        }),
{
    let b = entry_bytes(e);
    number_bytes(e.packed_move, e.score, e.key);
    number_bytes(e.count, e.depth, e.key);
    number_bytes(e.wdl_w, e.nnue_eval, e.key);
    number_bytes(e.wdl_l, e.jug_score, e.key);
    number_bytes(e.wdl_l, e.sf_score, e.key);
    number_bytes(e.wdl_l, e.clrsrc_score, e.key);
    assert(b.subrange(0, 8) =~= le_bytes(e.key as nat, 8));
    assert(b.subrange(8, 10) =~= le_bytes(e.packed_move as nat, 2));
    assert(b.subrange(10, 12) =~= i16_bytes(e.score));
    assert(b.subrange(12, 14) =~= i16_bytes(e.depth));
    assert(b.subrange(14, 16) =~= le_bytes(e.count as nat, 2));
    assert(b.subrange(18, 20) =~= le_bytes(e.wdl_w as nat, 2));
    assert(b.subrange(20, 22) =~= le_bytes(e.wdl_l as nat, 2));
    assert(b.subrange(22, 24) =~= i16_bytes(e.nnue_eval));
    assert(b.subrange(24, 26) =~= i16_bytes(e.jug_score));
    assert(b.subrange(26, 28) =~= i16_bytes(e.sf_score));
    assert(b.subrange(28, 30) =~= i16_bytes(e.clrsrc_score));
}

impl ExpEntry {
    /// Reads an entry from its first 32 bytes.
    pub fn from_bytes(b: &[u8]) -> (e: ExpEntry)
        requires
            b@.len() >= 32,
        ensures
            e == entry_at(b@, 0),
    {
        read_entry(b, 0)
    }

    /// The bytes of an entry.
    pub fn to_bytes(&self) -> (b: Vec<u8>)
        ensures
            b@ == entry_bytes(*self),
            b@.len() == 32,
    {
        let mut b: Vec<u8> = Vec::new();
        push_entry(&mut b, self);
        proof {
            entry_parts(*self);
        }
        assert(b@ =~= entry_bytes(*self));
        b
    }
}

fn read_entry(d: &[u8], off: usize) -> (e: ExpEntry)
    requires
        off + 32 <= d@.len(),
    ensures
        e == entry_at(d@, off as int),
{
    let n: usize = d.len();
    assert(off + 32 <= n);
    ExpEntry {
        key: read_le(d, off, 8),
        packed_move: read_le16(d, off + 8),
        score: read_le_i16(d, off + 10),
        depth: read_le_i16(d, off + 12),
        count: read_le16(d, off + 14),
        source: d[off + 16],
        flags: d[off + 17],
        wdl_w: read_le16(d, off + 18),
        wdl_l: read_le16(d, off + 20),
        nnue_eval: read_le_i16(d, off + 22),
        jug_score: read_le_i16(d, off + 24),
        sf_score: read_le_i16(d, off + 26),
        clrsrc_score: read_le_i16(d, off + 28),
    }
}

fn push_entry(out: &mut Vec<u8>, e: &ExpEntry)
    ensures
        final(out)@ == old(out)@ + entry_bytes(*e),
{
    push_le(out, e.key, 8);
    push_le(out, e.packed_move as u64, 2);
    push_le(out, to_unsigned16(e.score), 2);
    push_le(out, to_unsigned16(e.depth), 2);
    push_le(out, e.count as u64, 2);
    out.push(e.source);
    out.push(e.flags);
    push_le(out, e.wdl_w as u64, 2);
    push_le(out, e.wdl_l as u64, 2);
    push_le(out, to_unsigned16(e.nnue_eval), 2);
    push_le(out, to_unsigned16(e.jug_score), 2);
    push_le(out, to_unsigned16(e.sf_score), 2);
    push_le(out, to_unsigned16(e.clrsrc_score), 2);
    out.push(0);
    out.push(0);
    assert(out@ =~= old(out)@ + entry_bytes(*e));
}

// ---- Books ----
/// A book of entries. Only a sorted book can be probed.
pub struct ExpBook {
    pub data: Vec<u8>,
    pub num_entries: usize,
    pub sorted: bool,
}

/// The bytes begin with the letters "JBK2".
pub open spec fn has_magic(d: Seq<u8>) -> bool {
    d.len() >= 32 && d[0] == 74 && d[1] == 66 && d[2] == 75 && d[3] == 50
}

/// A file that can be read: the letters and version 2.
pub open spec fn readable(d: Seq<u8>) -> bool {
    has_magic(d) && u16_at(d, 4) == 2
}

/// How many entries a file holds: as many as its header says, if they are there.
pub open spec fn held_entries(d: Seq<u8>) -> int {
    let declared = le_num(d.subrange(8, 16)) as int;
    let there = (d.len() - 32) / 32;
    if declared < there {
        declared
    } else {
        there
    }
}

impl ExpBook {
    pub open spec fn wf(&self) -> bool {
        self.num_entries * 32 <= self.data@.len()
    }

    /// The entry at an index.
    pub open spec fn at(&self, i: int) -> ExpEntry {
        entry_at(self.data@, 32 * i)
    }

    /// All entries in the order of the file.
    pub open spec fn entries(&self) -> Seq<ExpEntry> {
        Seq::new(self.num_entries as nat, |i: int| self.at(i))
    }

    pub open spec fn keys(&self) -> spec_fn(int) -> int {
        |i: int| self.at(i).key as int
    }

    /// The entries are sorted by their keys, as the flag says.
    pub open spec fn in_order(&self) -> bool {
        self.sorted && ascending(self.keys(), self.num_entries as int)
    }

    /// The entry at which a key is found. A book whose header does not say that it is
    /// sorted finds none.
    pub open spec fn found_entry(&self, key: int) -> Option<int> {
        let i = bisected(self.keys(), key, 0, self.num_entries as int);
        if self.sorted && i < self.num_entries && self.at(i).key == key {
            Some(i)
        } else {
            None
        }
    }

    /// The first entry of a key in a sorted book.
    pub open spec fn first_entry(&self, key: int) -> Option<int> {
        let i = not_below(self.keys(), self.num_entries as int, key, 0);
        if i < self.num_entries && self.at(i).key == key {
            Some(i)
        } else {
            None
        }
    }

    /// The entries of a key from an index on, as long as the key stays the same.
    pub open spec fn run(&self, key: int, i: int) -> Seq<ExpEntry>
        decreases self.num_entries - i,
    {
        if i >= self.num_entries || self.at(i).key != key {
            Seq::empty()
        } else {
            seq![self.at(i)] + self.run(key, i + 1)
        }
    }

    /// The entries of a position.
    pub open spec fn offers(&self, p: Position) -> Seq<ExpEntry> {
        match self.found_entry(poly_hash(p) as int) {
            Some(i) => self.run(poly_hash(p) as int, i),
            None => Seq::empty(),
        }
    }

    /// The book holds the entries of the bytes of a file.
    pub open spec fn read_from(&self, raw: Seq<u8>) -> bool {
        &&& self.num_entries == held_entries(raw)
        &&& self.sorted == (u16_at(raw, 6) & HEADER_SORTED != 0)
        &&& self.data@ == raw.subrange(32, 32 + 32 * held_entries(raw))
    }

    /// A book from the bytes of a file. Other letters and versions are refused.
    pub fn from_bytes(raw: &[u8]) -> (r: Option<ExpBook>)
        ensures
            match r {
                Some(b) => readable(raw@) && b.wf() && b.read_from(raw@),
                None => !readable(raw@),
            },
    {
        let len: usize = raw.len();
        if len < 32 || raw[0] != 74 || raw[1] != 66 || raw[2] != 75 || raw[3] != 50 {
            return None;
        }
        if read_le16(raw, 4) != 2 {
            return None;
        }
        let flags: u16 = read_le16(raw, 6);
        let declared: u64 = read_le(raw, 8, 8);
        let there: usize = (len - 32) / 32;
        let num_entries: usize = if declared < there as u64 {
            declared as usize
        } else {
            there
        };
        let mut data: Vec<u8> = Vec::new();
        let end: usize = 32 + 32 * num_entries;
        let mut i: usize = 32;
        while i < end
            invariant
                32 <= i <= end <= len,
                len == raw@.len(),
                data@ == raw@.subrange(32, i as int),
            decreases end - i,
        {
            data.push(raw[i]);
            assert(data@ =~= raw@.subrange(32, i + 1));
            i = i + 1;
        }
        Some(ExpBook { data, num_entries, sorted: flags & HEADER_SORTED != 0 })
    }

    pub fn entry_count(&self) -> (n: usize)
        ensures
            n == self.num_entries,
    {
        self.num_entries
    }

    /// All entries in the order of the file.
    pub fn all_entries(&self) -> (v: Vec<ExpEntry>)
        requires
            self.wf(),
        ensures
            v@ == self.entries(),
    {
        let mut v: Vec<ExpEntry> = Vec::new();
        let mut i: usize = 0;
        while i < self.num_entries
            invariant
                self.wf(),
                i <= self.num_entries,
                v@.len() == i,
                forall|k: int| 0 <= k < i ==> #[trigger] v@[k] == self.at(k),
            decreases self.num_entries - i,
        {
            v.push(self.entry(i));
            i = i + 1;
        }
        assert(v@ =~= self.entries());
        v
    }

    /// The entry at an index.
    pub fn entry(&self, idx: usize) -> (e: ExpEntry)
        requires
            self.wf(),
            idx < self.num_entries,
        ensures
            e == self.at(idx as int),
    {
        let n: usize = self.data.len();
        assert(32 * idx + 32 <= n);
        read_entry(self.data.as_slice(), 32 * idx)
    }

    /// The first entry of a key, by bisection. A book whose header does not say
    /// that it is sorted has none.
    pub fn find_first(&self, key: u64) -> (r: Option<usize>)
        requires
            self.wf(),
        ensures
            match r {
                Some(i) => i < self.num_entries && self.at(i as int).key == key && self.found_entry(
                    key as int,
                ) == Some(i as int),
                None => self.found_entry(key as int) is None,
            },
            self.in_order() ==> self.found_entry(key as int) == self.first_entry(key as int),
    {
        if !self.sorted {
            return None;
        }
        let mut lo: usize = 0;
        let mut hi: usize = self.num_entries;
        let ghost keys = self.keys();
        let ghost end = bisected(keys, key as int, 0, self.num_entries as int);
        while lo < hi
            invariant
                self.wf(),
                lo <= hi <= self.num_entries,
                keys == self.keys(),
                end == bisected(keys, key as int, lo as int, hi as int),
            decreases hi - lo,
        {
            let mid: usize = lo + (hi - lo) / 2;
            let k: u64 = self.entry(mid).key;
            assert(keys(mid as int) == k);
            if k < key {
                lo = mid + 1;
            } else {
                hi = mid;
            }
        }
        proof {
            if self.in_order() {
                bisected_is_first(keys, self.num_entries as int, key as int, 0, self.num_entries as int);
            }
        }
        if lo < self.num_entries && self.entry(lo).key == key {
            Some(lo)
        } else {
            None
        }
    }

    /// All entries of a position, in the order of the file.
    pub fn probe(&self, pos: &Position) -> (v: Vec<ExpEntry>)
        requires
            self.wf(),
            pos.ep_square <= 64,
        ensures
            v@ == self.offers(*pos),
            forall|i: int| 0 <= i < v@.len() ==> (#[trigger] v@[i]).key == poly_hash(*pos),
    {
        let key: u64 = polyglot_hash(pos);
        let mut v: Vec<ExpEntry> = Vec::new();
        let first: usize = match self.find_first(key) {
            Some(i) => i,
            None => {
                return v;
            },
        };
        let mut i: usize = first;
        let ghost all = self.run(key as int, first as int);
        assert(v@ + self.run(key as int, i as int) =~= all);
        while i < self.num_entries && self.entry(i).key == key
            invariant
                self.wf(),
                i <= self.num_entries,
                v@ + self.run(key as int, i as int) == all,
                forall|k: int| 0 <= k < v@.len() ==> (#[trigger] v@[k]).key == key,
            decreases self.num_entries - i,
        {
            let ghost before = v@;
            v.push(self.entry(i));
            assert(v@ + self.run(key as int, i + 1) =~= before + self.run(key as int, i as int));
            i = i + 1;
        }
        assert(v@ =~= all);
        v
    }

    /// A move for a position. Moves within the tolerance of the variety that do
    /// not mostly lose are taken; without variety the deepest of them, otherwise
    /// one of those that are played often, by the random number.
    pub fn probe_best(&self, pos: &mut Position, variety: u8, rng: u64) -> (r: Option<Move>)
        requires
            self.wf(),
            playable(*old(pos)),
            old(pos).clock_room(1),
        ensures
            *final(pos) == *old(pos),
            r matches Some(mv) ==> legal(*old(pos), mv),
            r == best_offer(*old(pos), self.offers(*old(pos)), variety, rng),
    {
        proof {
            sound_facts(*pos);
        }
        let entries: Vec<ExpEntry> = self.probe(pos);
        if entries.len() == 0 {
            return None;
        }
        let e: ExpEntry = pick_entry(&entries, variety, rng);
        proof {
            decoded_is_legal(*pos, e.packed_move as int);
        }
        decode_poly_move(pos, e.packed_move)
    }
}

/// A sorted book finds every entry of a position: the entries of the key are
/// those of the run that begins at the first.
pub proof fn sorted_book_finds_all(b: ExpBook, key: int, i: int)
    requires
        b.in_order(),
        0 <= i < b.num_entries,
        b.at(i).key == key,
    ensures
        b.found_entry(key) == b.first_entry(key),
        b.first_entry(key) matches Some(k) && k <= i && i < k + b.run(key, k).len(),
{
    bisected_is_first(b.keys(), b.num_entries as int, key, 0, b.num_entries as int);
    let n = b.num_entries as int;
    let keys = b.keys();
    let k = not_below(keys, n, key, 0);
    not_below_facts(keys, n, key, 0);
    assert(keys(i) == key);
    if k > i {
        assert(keys(i) < key);
    }
    assert(keys(k) <= keys(i));
    run_covers(b, key, k, i);
}

proof fn not_below_facts(keys: spec_fn(int) -> int, n: int, key: int, i: int)
    requires
        0 <= i <= n,
    ensures
        i <= not_below(keys, n, key, i) <= n,
        not_below(keys, n, key, i) < n ==> keys(not_below(keys, n, key, i)) >= key,
        forall|j: int| i <= j < not_below(keys, n, key, i) ==> #[trigger] keys(j) < key,
    decreases n - i,
{
    if i < n && keys(i) < key {
        not_below_facts(keys, n, key, i + 1);
    }
}

proof fn run_covers(b: ExpBook, key: int, k: int, i: int)
    requires
        b.in_order(),
        0 <= k <= i < b.num_entries,
        b.at(k).key == key,
        b.at(i).key == key,
    ensures
        i < k + b.run(key, k).len(),
    decreases i - k,
{
    if k < i {
        let keys = b.keys();
        assert(keys(k) <= keys(k + 1));
        assert(keys(k + 1) <= keys(i));
        run_covers(b, key, k + 1, i);
    }
}

// ---- The choice of an entry ----
/// The entries of a list that satisfy a condition.
pub open spec fn chosen(s: Seq<ExpEntry>, f: spec_fn(ExpEntry) -> bool) -> Seq<ExpEntry>
    decreases s.len(),
{
    if s.len() == 0 {
        Seq::empty()
    } else if f(s.last()) {
        chosen(s.drop_last(), f).push(s.last())
    } else {
        chosen(s.drop_last(), f)
    }
}

/// The entries that satisfy a condition, or all where none does.
pub open spec fn chosen_or_all(s: Seq<ExpEntry>, f: spec_fn(ExpEntry) -> bool) -> Seq<ExpEntry> {
    if chosen(s, f).len() == 0 {
        s
    } else {
        chosen(s, f)
    }
}

/// The largest score of a list.
pub open spec fn best_score(s: Seq<ExpEntry>) -> int
    decreases s.len(),
{
    if s.len() <= 1 {
        s[0].score as int
    } else {
        at_least(best_score(s.drop_last()), s.last().score as int)
    }
}

/// The largest count of a list.
pub open spec fn best_count(s: Seq<ExpEntry>) -> int
    decreases s.len(),
{
    if s.len() <= 1 {
        s[0].count as int
    } else {
        at_least(best_count(s.drop_last()), s.last().count as int)
    }
}

/// The score that an entry must reach.
pub open spec fn cutoff(s: Seq<ExpEntry>, variety: u8) -> int {
    at_least(
        best_score(s) - (if variety == 1 {
            15int
        } else if variety == 2 {
            30
        } else {
            0
        }),
        -32768,
    )
}

/// The move does not mostly lose: too few games, or fewer losses than wins.
pub open spec fn not_losing(e: ExpEntry) -> bool {
    e.wdl_w + e.wdl_l < 6 || e.wdl_l * 2 < e.wdl_w + e.wdl_l
}

/// An entry is at least as good as another: by depth, then count, then score.
pub open spec fn no_worse(a: ExpEntry, b: ExpEntry) -> bool {
    a.depth > b.depth || (a.depth == b.depth && (a.count > b.count || (a.count == b.count && a.score
        >= b.score)))
}

/// The best entry; of equal ones the last.
pub open spec fn best_entry(s: Seq<ExpEntry>) -> ExpEntry
    decreases s.len(),
{
    if s.len() <= 1 {
        s[0]
    } else {
        let b = best_entry(s.drop_last());
        if no_worse(s.last(), b) {
            s.last()
        } else {
            b
        }
    }
}

/// A random number with its bits mixed.
pub open spec fn mixed(rng: u64) -> u64 {
    let a = rng.wrapping_add(0x9E3779B97F4A7C15);
    let b = (a ^ (a >> 30)).wrapping_mul(0xBF58476D1CE4E5B9);
    let c = (b ^ (b >> 27)).wrapping_mul(0x94D049BB133111EB);
    c ^ (c >> 31)
}

/// The entries that are within the tolerance and do not mostly lose.
pub open spec fn pool(s: Seq<ExpEntry>, variety: u8) -> Seq<ExpEntry> {
    let near = chosen(s, |e: ExpEntry| e.score >= cutoff(s, variety));
    chosen_or_all(near, |e: ExpEntry| not_losing(e))
}

/// The entry that a list gives.
pub open spec fn picked(s: Seq<ExpEntry>, variety: u8, rng: u64) -> ExpEntry {
    let p = pool(s, variety);
    if variety == 0 {
        best_entry(p)
    } else {
        let often = chosen_or_all(p, |e: ExpEntry| e.count >= best_count(p) / 20);
        often[mixed(rng) as int % often.len() as int]
    }
}

/// The move that a list of entries gives.
pub open spec fn best_offer(p: Position, s: Seq<ExpEntry>, variety: u8, rng: u64) -> Option<Move> {
    if s.len() == 0 {
        None
    } else {
        decoded(p, picked(s, variety, rng).packed_move as int)
    }
}

proof fn best_score_reached(s: Seq<ExpEntry>)
    requires
        s.len() > 0,
    ensures
        exists|i: int| 0 <= i < s.len() && #[trigger] s[i].score == best_score(s),
    decreases s.len(),
{
    if s.len() > 1 {
        best_score_reached(s.drop_last());
        let i = choose|i: int|
            0 <= i < s.drop_last().len() && #[trigger] s.drop_last()[i].score == best_score(
                s.drop_last(),
            );
        assert(s[i].score == best_score(s.drop_last()));
        assert(s[s.len() - 1].score == s.last().score);
    } else {
        assert(s[0].score == best_score(s));
    }
}

proof fn chosen_not_empty(s: Seq<ExpEntry>, f: spec_fn(ExpEntry) -> bool, i: int)
    requires
        0 <= i < s.len(),
        f(s[i]),
    ensures
        chosen(s, f).len() > 0,
    decreases s.len(),
{
    if i < s.len() - 1 {
        chosen_not_empty(s.drop_last(), f, i);
    }
}

/// The best score lies within the tolerance, so some entry does.
proof fn pool_not_empty(s: Seq<ExpEntry>, variety: u8)
    requires
        s.len() > 0,
    ensures
        chosen(s, |e: ExpEntry| e.score >= cutoff(s, variety)).len() > 0,
        pool(s, variety).len() > 0,
{
    best_score_reached(s);
    let i = choose|i: int| 0 <= i < s.len() && #[trigger] s[i].score == best_score(s);
    chosen_not_empty(s, |e: ExpEntry| e.score >= cutoff(s, variety), i);
}

fn max_score(s: &Vec<ExpEntry>) -> (m: i16)
    requires
        s@.len() > 0,
    ensures
        m == best_score(s@),
{
    let mut m: i16 = s[0].score;
    let mut i: usize = 1;
    assert(s@.take(1).len() == 1);
    while i < s.len()
        invariant
            1 <= i <= s@.len(),
            m == best_score(s@.take(i as int)),
        decreases s@.len() - i,
    {
        assert(s@.take(i + 1).drop_last() =~= s@.take(i as int));
        if s[i].score > m {
            m = s[i].score;
        }
        i = i + 1;
    }
    assert(s@.take(i as int) =~= s@);
    m
}

fn max_count(s: &Vec<ExpEntry>) -> (m: u16)
    requires
        s@.len() > 0,
    ensures
        m == best_count(s@),
{
    let mut m: u16 = s[0].count;
    let mut i: usize = 1;
    assert(s@.take(1).len() == 1);
    while i < s.len()
        invariant
            1 <= i <= s@.len(),
            m == best_count(s@.take(i as int)),
        decreases s@.len() - i,
    {
        assert(s@.take(i + 1).drop_last() =~= s@.take(i as int));
        if s[i].count > m {
            m = s[i].count;
        }
        i = i + 1;
    }
    assert(s@.take(i as int) =~= s@);
    m
}

fn above_score(s: &Vec<ExpEntry>, least: i32) -> (v: Vec<ExpEntry>)
    ensures
        v@ == chosen(s@, |e: ExpEntry| e.score >= least),
{
    let ghost f = |e: ExpEntry| e.score >= least;
    let mut v: Vec<ExpEntry> = Vec::new();
    let mut i: usize = 0;
    assert(s@.take(0) =~= Seq::empty());
    while i < s.len()
        invariant
            i <= s@.len(),
            f == (|e: ExpEntry| e.score >= least),
            v@ == chosen(s@.take(i as int), f),
        decreases s@.len() - i,
    {
        assert(s@.take(i + 1).drop_last() =~= s@.take(i as int));
        if s[i].score as i32 >= least {
            v.push(s[i]);
        }
        i = i + 1;
    }
    assert(s@.take(i as int) =~= s@);
    v
}

fn above_count(s: &Vec<ExpEntry>, least: u16) -> (v: Vec<ExpEntry>)
    ensures
        v@ == chosen(s@, |e: ExpEntry| e.count >= least),
{
    let ghost f = |e: ExpEntry| e.count >= least;
    let mut v: Vec<ExpEntry> = Vec::new();
    let mut i: usize = 0;
    assert(s@.take(0) =~= Seq::empty());
    while i < s.len()
        invariant
            i <= s@.len(),
            f == (|e: ExpEntry| e.count >= least),
            v@ == chosen(s@.take(i as int), f),
        decreases s@.len() - i,
    {
        assert(s@.take(i + 1).drop_last() =~= s@.take(i as int));
        if s[i].count >= least {
            v.push(s[i]);
        }
        i = i + 1;
    }
    assert(s@.take(i as int) =~= s@);
    v
}

fn without_losing(s: &Vec<ExpEntry>) -> (v: Vec<ExpEntry>)
    ensures
        v@ == chosen(s@, |e: ExpEntry| not_losing(e)),
{
    let ghost f = |e: ExpEntry| not_losing(e);
    let mut v: Vec<ExpEntry> = Vec::new();
    let mut i: usize = 0;
    assert(s@.take(0) =~= Seq::empty());
    while i < s.len()
        invariant
            i <= s@.len(),
            f == (|e: ExpEntry| not_losing(e)),
            v@ == chosen(s@.take(i as int), f),
        decreases s@.len() - i,
    {
        assert(s@.take(i + 1).drop_last() =~= s@.take(i as int));
        let e: ExpEntry = s[i];
        let total: i32 = e.wdl_w as i32 + e.wdl_l as i32;
        if total < 6 || (e.wdl_l as i32) * 2 < total {
            v.push(e);
        }
        i = i + 1;
    }
    assert(s@.take(i as int) =~= s@);
    v
}

fn deepest(s: &Vec<ExpEntry>) -> (e: ExpEntry)
    requires
        s@.len() > 0,
    ensures
        e == best_entry(s@),
{
    let mut b: ExpEntry = s[0];
    let mut i: usize = 1;
    assert(s@.take(1).len() == 1);
    while i < s.len()
        invariant
            1 <= i <= s@.len(),
            b == best_entry(s@.take(i as int)),
        decreases s@.len() - i,
    {
        assert(s@.take(i + 1).drop_last() =~= s@.take(i as int));
        let a: ExpEntry = s[i];
        if a.depth > b.depth || (a.depth == b.depth && (a.count > b.count || (a.count == b.count
            && a.score >= b.score))) {
            b = a;
        }
        i = i + 1;
    }
    assert(s@.take(i as int) =~= s@);
    b
}

/// Mixes the bits of a random number.
pub fn mix(rng: u64) -> (z: u64)
    ensures
        z == mixed(rng),
{
    let a: u64 = rng.wrapping_add(0x9E3779B97F4A7C15);
    let b: u64 = (a ^ (a >> 30)).wrapping_mul(0xBF58476D1CE4E5B9);
    let c: u64 = (b ^ (b >> 27)).wrapping_mul(0x94D049BB133111EB);
    c ^ (c >> 31)
}

/// The entry that a list gives.
pub fn pick_entry(entries: &Vec<ExpEntry>, variety: u8, rng: u64) -> (e: ExpEntry)
    requires
        entries@.len() > 0,
    ensures
        e == picked(entries@, variety, rng),
{
    let margin: i32 = if variety == 1 {
        15
    } else if variety == 2 {
        30
    } else {
        0
    };
    let mut least: i32 = max_score(entries) as i32 - margin;
    if least < -32768 {
        least = -32768;
    }
    let near: Vec<ExpEntry> = above_score(entries, least);
    let ghost s = entries@;
    proof {
        pool_not_empty(s, variety);
        same_choice(s, |e: ExpEntry| e.score >= least, |e: ExpEntry| e.score >= cutoff(s, variety));
    }
    let sound: Vec<ExpEntry> = without_losing(&near);
    let left: Vec<ExpEntry> = if sound.len() == 0 {
        near
    } else {
        sound
    };
    assert(left@ == pool(s, variety));
    if variety == 0 {
        return deepest(&left);
    }
    let floor: u16 = max_count(&left) / 20;
    let often: Vec<ExpEntry> = above_count(&left, floor);
    proof {
        let p = pool(s, variety);
        same_choice(
            p,
            |e: ExpEntry| e.count >= floor,
            |e: ExpEntry| e.count >= best_count(p) / 20,
        );
    }
    let last: Vec<ExpEntry> = if often.len() == 0 {
        left
    } else {
        often
    };
    let k: usize = (mix(rng) % last.len() as u64) as usize;
    last[k]
}

/// Conditions that agree choose the same entries.
proof fn same_choice(s: Seq<ExpEntry>, f: spec_fn(ExpEntry) -> bool, g: spec_fn(ExpEntry) -> bool)
    requires
        forall|e: ExpEntry| #[trigger] f(e) == g(e),
    ensures
        chosen(s, f) == chosen(s, g),
    decreases s.len(),
{
    if s.len() > 0 {
        same_choice(s.drop_last(), f, g);
        assert(f(s.last()) == g(s.last()));
    }
}

// ---- Merging ----
/// What is gathered for one move of one position: the merged entry, and the
/// depth from which each kind of score comes, -1 for none.
#[derive(Clone, Copy, PartialEq, Eq, Structural, Debug)]
pub struct Gathered {
    pub e: ExpEntry,
    pub jug_depth: i32,
    pub sf_depth: i32,
    pub clrsrc_depth: i32,
}

/// The entry belongs to the key and the move.
pub open spec fn belongs(e: ExpEntry, key: u64, mv: u16) -> bool {
    e.key == key && e.packed_move == mv
}

/// Nothing gathered yet.
pub open spec fn nothing_of(key: u64, mv: u16) -> Gathered {
    Gathered {
        e: ExpEntry {
            key,
            packed_move: mv,
            score: 0,
            depth: 0,
            count: 0,
            source: 0,
            flags: 0,
            wdl_w: 0,
            wdl_l: 0,
            nnue_eval: EXP_SCORE_NONE,
            jug_score: EXP_SCORE_NONE,
            sf_score: EXP_SCORE_NONE,
            clrsrc_score: EXP_SCORE_NONE,
        },
        jug_depth: -1i32,
        sf_depth: -1i32,
        clrsrc_depth: -1i32,
    }
}

/// A sum of counts that stops at the largest count.
pub open spec fn capped(a: u16, b: u16) -> u16 {
    if a + b > 65535 {
        65535
    } else {
        (a + b) as u16
    }
}

/// A score replaces the one that is gathered: its source is named, it is set,
/// and it is no shallower.
pub open spec fn replaces(source: u8, bit: u8, score: i16, depth: i16, known: i32) -> bool {
    source & bit != 0 && score != EXP_SCORE_NONE && depth >= known
}

/// The gathered entry with one more judgement.
pub open spec fn absorbed(g: Gathered, s: ExpEntry) -> Gathered {
    let jug = replaces(s.source, EXP_SOURCE_JUGERNAUT, s.jug_score, s.depth, g.jug_depth);
    let sf = replaces(s.source, EXP_SOURCE_STOCKFISH, s.sf_score, s.depth, g.sf_depth);
    let own = replaces(s.source, EXP_SOURCE_ENGINE, s.clrsrc_score, s.depth, g.clrsrc_depth);
    Gathered {
        e: ExpEntry {
            source: g.e.source | s.source,
            flags: g.e.flags | s.flags,
            count: capped(g.e.count, s.count),
            wdl_w: capped(g.e.wdl_w, s.wdl_w),
            wdl_l: capped(g.e.wdl_l, s.wdl_l),
            nnue_eval: if g.e.nnue_eval == EXP_SCORE_NONE {
                s.nnue_eval
            } else {
                g.e.nnue_eval
            },
            jug_score: if jug {
                s.jug_score
            } else {
                g.e.jug_score
            },
            sf_score: if sf {
                s.sf_score
            } else {
                g.e.sf_score
            },
            clrsrc_score: if own {
                s.clrsrc_score
            } else {
                g.e.clrsrc_score
            },
            ..g.e
        },
        jug_depth: if jug {
            s.depth as i32
        } else {
            g.jug_depth
        },
        sf_depth: if sf {
            s.depth as i32
        } else {
            g.sf_depth
        },
        clrsrc_depth: if own {
            s.depth as i32
        } else {
            g.clrsrc_depth
        },
    }
}

/// What the first `n` entries give for a key and a move.
pub open spec fn gathered(s: Seq<ExpEntry>, key: u64, mv: u16, n: int) -> Gathered
    decreases n,
{
    if n <= 0 {
        nothing_of(key, mv)
    } else if belongs(s[n - 1], key, mv) {
        absorbed(gathered(s, key, mv, n - 1), s[n - 1])
    } else {
        gathered(s, key, mv, n - 1)
    }
}

/// The first score that is set; 0 if none is.
pub open spec fn first_score(a: i16, b: i16, c: i16) -> i16 {
    if a != EXP_SCORE_NONE {
        a
    } else if b != EXP_SCORE_NONE {
        b
    } else if c != EXP_SCORE_NONE {
        c
    } else {
        0
    }
}

/// The merged entry: its depth is the largest of its scores' depths, and its
/// score is that of the source with the highest rank.
pub open spec fn merged(g: Gathered, clrsrc_first: bool) -> ExpEntry {
    ExpEntry {
        depth: at_least(
            at_least(at_least(g.jug_depth as int, g.sf_depth as int), g.clrsrc_depth as int),
            0,
        ) as i16,
        score: if clrsrc_first {
            first_score(g.e.clrsrc_score, g.e.jug_score, g.e.sf_score)
        } else {
            first_score(g.e.jug_score, g.e.sf_score, g.e.clrsrc_score)
        },
        ..g.e
    }
}

/// Entries come before others by key, then by move.
pub open spec fn before(a: ExpEntry, b: ExpEntry) -> bool {
    a.key < b.key || (a.key == b.key && a.packed_move < b.packed_move)
}

/// The entries ascend strictly by key and move.
pub open spec fn strictly_sorted(s: Seq<ExpEntry>) -> bool {
    forall|i: int, j: int| 0 <= i < j < s.len() ==> before(#[trigger] s[i], #[trigger] s[j])
}

/// The key and move of an entry occur in a list.
pub open spec fn occurs(s: Seq<ExpEntry>, n: int, e: ExpEntry) -> bool {
    exists|i: int| 0 <= i < n && belongs(#[trigger] s[i], e.key, e.packed_move)
}

/// The entries that have been gathered so far.
pub open spec fn gathered_entries(v: Seq<Gathered>) -> Seq<ExpEntry> {
    Seq::new(v.len(), |i: int| v[i].e)
}

/// The score that a source gives.
pub open spec fn score_by(e: ExpEntry, bit: u8) -> i16 {
    if bit == EXP_SOURCE_JUGERNAUT {
        e.jug_score
    } else if bit == EXP_SOURCE_STOCKFISH {
        e.sf_score
    } else {
        e.clrsrc_score
    }
}

/// The depth from which the gathered score of a source comes.
pub open spec fn depth_by(g: Gathered, bit: u8) -> i32 {
    if bit == EXP_SOURCE_JUGERNAUT {
        g.jug_depth
    } else if bit == EXP_SOURCE_STOCKFISH {
        g.sf_depth
    } else {
        g.clrsrc_depth
    }
}

/// An entry gives a score of the source for the key and the move.
pub open spec fn gives_score(e: ExpEntry, key: u64, mv: u16, bit: u8) -> bool {
    belongs(e, key, mv) && e.source & bit != 0 && score_by(e, bit) != EXP_SCORE_NONE && e.depth >= -1
}

/// Among entries, the one at `i` gives the deepest score of a source.
pub open spec fn is_deepest(s: Seq<ExpEntry>, n: int, i: int, key: u64, mv: u16, bit: u8) -> bool {
    &&& 0 <= i < n
    &&& gives_score(s[i], key, mv, bit)
    &&& forall|j: int|
        0 <= j < n && gives_score(#[trigger] s[j], key, mv, bit) ==> s[j].depth <= s[i].depth
}

/// For each source the deepest score wins; where no entry gives one, none is set.
pub proof fn deepest_score_wins(s: Seq<ExpEntry>, n: int, key: u64, mv: u16, bit: u8)
    requires
        0 <= n <= s.len(),
        bit == EXP_SOURCE_JUGERNAUT || bit == EXP_SOURCE_STOCKFISH || bit == EXP_SOURCE_ENGINE,
    ensures
        ({
            let g = gathered(s, key, mv, n);
            if exists|i: int| 0 <= i < n && gives_score(#[trigger] s[i], key, mv, bit) {
                exists|i: int| #[trigger]
                    is_deepest(s, n, i, key, mv, bit) && score_by(g.e, bit) == score_by(s[i], bit)
                        && depth_by(g, bit) == s[i].depth
            } else {
                score_by(g.e, bit) == EXP_SCORE_NONE && depth_by(g, bit) == -1
            }
        }),
    decreases n,
{
    if n > 0 {
        deepest_score_wins(s, n - 1, key, mv, bit);
        let g = gathered(s, key, mv, n - 1);
        let e = s[n - 1];
        let some = exists|i: int| 0 <= i < n - 1 && gives_score(#[trigger] s[i], key, mv, bit);
        if some {
            let k = choose|i: int| #[trigger]
                is_deepest(s, n - 1, i, key, mv, bit) && score_by(g.e, bit) == score_by(s[i], bit)
                    && depth_by(g, bit) == s[i].depth;
            assert(gives_score(s[k], key, mv, bit));
            if gives_score(e, key, mv, bit) && e.depth >= s[k].depth {
                assert(is_deepest(s, n, n - 1, key, mv, bit));
            } else {
                assert(is_deepest(s, n, k, key, mv, bit));
            }
        } else if gives_score(e, key, mv, bit) {
            assert(is_deepest(s, n, n - 1, key, mv, bit));
        }
    }
}

/// How often the entries for a key and a move count together.
pub open spec fn count_sum(s: Seq<ExpEntry>, key: u64, mv: u16, n: int) -> int
    decreases n,
{
    if n <= 0 {
        0
    } else {
        count_sum(s, key, mv, n - 1) + (if belongs(s[n - 1], key, mv) {
            s[n - 1].count as int
        } else {
            0
        })
    }
}

/// The counts add up, as far as the largest count.
pub proof fn counts_add_up(s: Seq<ExpEntry>, n: int, key: u64, mv: u16)
    requires
        0 <= n <= s.len(),
    ensures
        gathered(s, key, mv, n).e.count == at_most(count_sum(s, key, mv, n), 65535),
        count_sum(s, key, mv, n) >= 0,
    decreases n,
{
    if n > 0 {
        counts_add_up(s, n - 1, key, mv);
    }
}

/// The evaluation that is kept is the first one that is set.
pub proof fn first_eval_stays(s: Seq<ExpEntry>, n: int, key: u64, mv: u16, i: int)
    requires
        0 <= i < n <= s.len(),
        belongs(s[i], key, mv),
        s[i].nnue_eval != EXP_SCORE_NONE,
        forall|j: int|
            0 <= j < i && belongs(#[trigger] s[j], key, mv) ==> s[j].nnue_eval == EXP_SCORE_NONE,
    ensures
        gathered(s, key, mv, n).e.nnue_eval == s[i].nnue_eval,
    decreases n,
{
    if n - 1 > i {
        first_eval_stays(s, n - 1, key, mv, i);
    } else {
        no_eval_before(s, i, key, mv);
    }
}

proof fn no_eval_before(s: Seq<ExpEntry>, n: int, key: u64, mv: u16)
    requires
        0 <= n <= s.len(),
        forall|j: int|
            0 <= j < n && belongs(#[trigger] s[j], key, mv) ==> s[j].nnue_eval == EXP_SCORE_NONE,
    ensures
        gathered(s, key, mv, n).e.nnue_eval == EXP_SCORE_NONE,
    decreases n,
{
    if n > 0 {
        no_eval_before(s, n - 1, key, mv);
    }
}

/// Sources that are named stay named.
proof fn sources_stay(a: u8, b: u8, bit: u8)
    by (bit_vector)
    ensures
        a & bit != 0 || b & bit != 0 ==> (a | b) & bit != 0,
        0u8 | a == a,
{
}

/// What is gathered of a source names the source, at a depth that counts.
proof fn scores_are_named(s: Seq<ExpEntry>, n: int, key: u64, mv: u16, bit: u8)
    requires
        0 <= n <= s.len(),
        bit == EXP_SOURCE_JUGERNAUT || bit == EXP_SOURCE_STOCKFISH || bit == EXP_SOURCE_ENGINE,
    ensures
        ({
            let g = gathered(s, key, mv, n);
            &&& depth_by(g, bit) >= -1
            &&& score_by(g.e, bit) != EXP_SCORE_NONE ==> g.e.source & bit != 0
            &&& score_by(g.e, bit) == EXP_SCORE_NONE ==> depth_by(g, bit) == -1
        }),
    decreases n,
{
    if n > 0 {
        scores_are_named(s, n - 1, key, mv, bit);
        sources_stay(gathered(s, key, mv, n - 1).e.source, s[n - 1].source, bit);
    }
}

/// An entry that was merged stays as it is when it is merged again.
pub proof fn merged_stays(s: Seq<ExpEntry>, n: int, key: u64, mv: u16, clrsrc_first: bool)
    requires
        0 <= n <= s.len(),
    ensures
        ({
            let e = merged(gathered(s, key, mv, n), clrsrc_first);
            merged(gathered(seq![e], key, mv, 1), clrsrc_first) == e
        }),
{
    let g = gathered(s, key, mv, n);
    let e = merged(g, clrsrc_first);
    gathered_keeps(s, key, mv, n);
    scores_are_named(s, n, key, mv, EXP_SOURCE_JUGERNAUT);
    scores_are_named(s, n, key, mv, EXP_SOURCE_STOCKFISH);
    scores_are_named(s, n, key, mv, EXP_SOURCE_ENGINE);
    sources_stay(e.source, 0, 0);
    sources_stay(e.flags, 0, 0);
    reveal_with_fuel(gathered, 2);
    assert(gathered(seq![e], key, mv, 1) == absorbed(nothing_of(key, mv), e));
}

fn add_capped(a: u16, b: u16) -> (c: u16)
    ensures
        c == capped(a, b),
{
    let s: u32 = a as u32 + b as u32;
    if s > 65535 {
        65535
    } else {
        s as u16
    }
}

fn absorb(g: &Gathered, s: &ExpEntry) -> (r: Gathered)
    ensures
        r == absorbed(*g, *s),
{
    let mut e: ExpEntry = g.e;
    let mut jug_depth: i32 = g.jug_depth;
    let mut sf_depth: i32 = g.sf_depth;
    let mut clrsrc_depth: i32 = g.clrsrc_depth;
    e.source = e.source | s.source;
    e.flags = e.flags | s.flags;
    e.count = add_capped(e.count, s.count);
    e.wdl_w = add_capped(e.wdl_w, s.wdl_w);
    e.wdl_l = add_capped(e.wdl_l, s.wdl_l);
    if e.nnue_eval == EXP_SCORE_NONE {
        e.nnue_eval = s.nnue_eval;
    }
    let d: i32 = s.depth as i32;
    if s.source & EXP_SOURCE_JUGERNAUT != 0 && s.jug_score != EXP_SCORE_NONE && d >= jug_depth {
        e.jug_score = s.jug_score;
        jug_depth = d;
    }
    if s.source & EXP_SOURCE_STOCKFISH != 0 && s.sf_score != EXP_SCORE_NONE && d >= sf_depth {
        e.sf_score = s.sf_score;
        sf_depth = d;
    }
    if s.source & EXP_SOURCE_ENGINE != 0 && s.clrsrc_score != EXP_SCORE_NONE && d >= clrsrc_depth {
        e.clrsrc_score = s.clrsrc_score;
        clrsrc_depth = d;
    }
    Gathered { e, jug_depth, sf_depth, clrsrc_depth }
}

fn empty_gathered(key: u64, mv: u16) -> (g: Gathered)
    ensures
        g == nothing_of(key, mv),
{
    Gathered {
        e: ExpEntry {
            key,
            packed_move: mv,
            score: 0,
            depth: 0,
            count: 0,
            source: 0,
            flags: 0,
            wdl_w: 0,
            wdl_l: 0,
            nnue_eval: EXP_SCORE_NONE,
            jug_score: EXP_SCORE_NONE,
            sf_score: EXP_SCORE_NONE,
            clrsrc_score: EXP_SCORE_NONE,
        },
        jug_depth: -1,
        sf_depth: -1,
        clrsrc_depth: -1,
    }
}

/// The depths from which scores come are those of entries.
pub open spec fn depths_ok(g: Gathered) -> bool {
    -32768 <= g.jug_depth <= 32767 && -32768 <= g.sf_depth <= 32767 && -32768 <= g.clrsrc_depth
        <= 32767
}

proof fn gathered_keeps(s: Seq<ExpEntry>, key: u64, mv: u16, n: int)
    requires
        0 <= n <= s.len(),
    ensures
        gathered(s, key, mv, n).e.key == key,
        gathered(s, key, mv, n).e.packed_move == mv,
        depths_ok(gathered(s, key, mv, n)),
    decreases n,
{
    if n > 0 {
        gathered_keeps(s, key, mv, n - 1);
    }
}

fn finish(g: &Gathered, clrsrc_first: bool) -> (e: ExpEntry)
    requires
        depths_ok(*g),
    ensures
        e == merged(*g, clrsrc_first),
{
    let mut e: ExpEntry = g.e;
    let mut d: i32 = g.jug_depth;
    if g.sf_depth > d {
        d = g.sf_depth;
    }
    if g.clrsrc_depth > d {
        d = g.clrsrc_depth;
    }
    if d < 0 {
        d = 0;
    }
    e.depth = d as i16;
    let (a, b, c) = if clrsrc_first {
        (e.clrsrc_score, e.jug_score, e.sf_score)
    } else {
        (e.jug_score, e.sf_score, e.clrsrc_score)
    };
    e.score = if a != EXP_SCORE_NONE {
        a
    } else if b != EXP_SCORE_NONE {
        b
    } else if c != EXP_SCORE_NONE {
        c
    } else {
        0
    };
    e
}

/// The first index at which the gathered entry does not come before an entry.
fn place_of(v: &Vec<Gathered>, e: &ExpEntry) -> (k: usize)
    requires
        strictly_sorted(gathered_entries(v@)),
    ensures
        k <= v@.len(),
        forall|j: int| 0 <= j < k ==> before((#[trigger] v@[j]).e, *e),
        forall|j: int| k <= j < v@.len() ==> !before((#[trigger] v@[j]).e, *e),
{
    let mut lo: usize = 0;
    let mut hi: usize = v.len();
    let ghost g = gathered_entries(v@);
    while lo < hi
        invariant
            lo <= hi <= v@.len(),
            g == gathered_entries(v@),
            strictly_sorted(g),
            forall|j: int| 0 <= j < lo ==> before((#[trigger] v@[j]).e, *e),
            forall|j: int| hi <= j < v@.len() ==> !before((#[trigger] v@[j]).e, *e),
        decreases hi - lo,
    {
        let mid: usize = lo + (hi - lo) / 2;
        let m: ExpEntry = v[mid].e;
        if m.key < e.key || (m.key == e.key && m.packed_move < e.packed_move) {
            proof {
                assert forall|j: int| 0 <= j < mid + 1 implies before((#[trigger] v@[j]).e, *e) by {
                    if j < mid {
                        assert(before(g[j], g[mid as int]));
                    }
                }
            }
            lo = mid + 1;
        } else {
            proof {
                assert forall|j: int| mid <= j < v@.len() implies !before(
                    (#[trigger] v@[j]).e,
                    *e,
                ) by {
                    if mid < j {
                        assert(before(g[mid as int], g[j]));
                    }
                }
            }
            hi = mid;
        }
    }
    lo
}

/// The list holds what the first `n` entries give, one for each key and move.
pub open spec fn gathers(v: Seq<Gathered>, s: Seq<ExpEntry>, n: int) -> bool {
    &&& strictly_sorted(gathered_entries(v))
    &&& forall|k: int|
        0 <= k < v.len() ==> (#[trigger] v[k]) == gathered(s, v[k].e.key, v[k].e.packed_move, n)
            && occurs(s, n, v[k].e)
    &&& forall|i: int|
        0 <= i < n ==> exists|k: int|
            0 <= k < v.len() && belongs(#[trigger] s[i], (#[trigger] v[k]).e.key, v[k].e.packed_move)
}

/// Adds one entry to what has been gathered.
#[verifier::rlimit(60)]
fn gather(v: &mut Vec<Gathered>, entries: &[ExpEntry], n: usize)
    requires
        n < entries@.len(),
        gathers(old(v)@, entries@, n as int),
    ensures
        gathers(final(v)@, entries@, n + 1),
{
    let e: ExpEntry = entries[n];
    let k: usize = place_of(v, &e);
    let ghost v0 = v@;
    let ghost s = entries@;
    let ghost g0 = gathered_entries(v0);
    if k < v.len() && v[k].e.key == e.key && v[k].e.packed_move == e.packed_move {
        let g: Gathered = absorb(&v[k], &e);
        v.set(k, g);
        proof {
            gathered_keeps(s, e.key, e.packed_move, n as int);
            let g1 = gathered_entries(v@);
            assert forall|i: int, j: int| 0 <= i < j < g1.len() implies before(
                #[trigger] g1[i],
                #[trigger] g1[j],
            ) by {
                assert(before(g0[i], g0[j]));
            }
            assert forall|x: int| 0 <= x < v@.len() implies (#[trigger] v@[x]) == gathered(
                s,
                v@[x].e.key,
                v@[x].e.packed_move,
                n + 1,
            ) && occurs(s, n + 1, v@[x].e) by {
                assert(v0[x] == gathered(s, v0[x].e.key, v0[x].e.packed_move, n as int));
                assert(occurs(s, n as int, v0[x].e));
                let i = choose|i: int|
                    0 <= i < n && belongs(#[trigger] s[i], v0[x].e.key, v0[x].e.packed_move);
                assert(belongs(s[i], v@[x].e.key, v@[x].e.packed_move));
                if x != k {
                    if x < k {
                        assert(before(g0[x], g0[k as int]));
                    } else {
                        assert(before(g0[k as int], g0[x]));
                    }
                }
            }
            assert forall|i: int| 0 <= i < n + 1 implies exists|x: int|
                0 <= x < v@.len() && belongs(
                    #[trigger] s[i],
                    (#[trigger] v@[x]).e.key,
                    v@[x].e.packed_move,
                ) by {
                if i < n {
                    let x = choose|x: int|
                        0 <= x < v0.len() && belongs(
                            s[i],
                            (#[trigger] v0[x]).e.key,
                            v0[x].e.packed_move,
                        );
                    assert(belongs(s[i], v@[x].e.key, v@[x].e.packed_move));
                } else {
                    assert(belongs(s[i], v@[k as int].e.key, v@[k as int].e.packed_move));
                }
            }
        }
    } else {
        let g: Gathered = absorb(&empty_gathered(e.key, e.packed_move), &e);
        v.insert(k, g);
        proof {
            let v1 = v@;
            let g1 = gathered_entries(v1);
            assert forall|j: int| k <= j < v0.len() implies before(e, (#[trigger] v0[j]).e) by {
                assert(!before(v0[j].e, e));
                if v0[j].e.key == e.key && v0[j].e.packed_move == e.packed_move && j > k {
                    assert(before(g0[k as int], g0[j]));
                    assert(!before(v0[k as int].e, e));
                }
            }
            assert forall|i: int, j: int| 0 <= i < j < g1.len() implies before(
                #[trigger] g1[i],
                #[trigger] g1[j],
            ) by {
                if i < k {
                    assert(v1[i] == v0[i]);
                    assert(before(v0[i].e, e));
                    if j > k {
                        assert(v1[j] == v0[j - 1]);
                        assert(before(g0[i], g0[j - 1]));
                    } else if j < k {
                        assert(v1[j] == v0[j]);
                        assert(before(g0[i], g0[j]));
                    }
                } else if i == k {
                    assert(v1[j] == v0[j - 1]);
                    assert(before(e, v0[j - 1].e));
                } else {
                    assert(v1[i] == v0[i - 1]);
                    assert(v1[j] == v0[j - 1]);
                    assert(before(g0[i - 1], g0[j - 1]));
                }
            }
            new_key(s, v0, e, n as int, k as int);
            assert forall|x: int| 0 <= x < v1.len() implies (#[trigger] v1[x]) == gathered(
                s,
                v1[x].e.key,
                v1[x].e.packed_move,
                n + 1,
            ) && occurs(s, n + 1, v1[x].e) by {
                if x == k {
                    assert(belongs(s[n as int], e.key, e.packed_move));
                } else {
                    let y = if x < k {
                        x
                    } else {
                        x - 1
                    };
                    assert(v1[x] == v0[y]);
                    assert(v0[y] == gathered(s, v0[y].e.key, v0[y].e.packed_move, n as int));
                    assert(occurs(s, n as int, v0[y].e));
                    let i = choose|i: int|
                        0 <= i < n && belongs(#[trigger] s[i], v0[y].e.key, v0[y].e.packed_move);
                    assert(belongs(s[i], v1[x].e.key, v1[x].e.packed_move));
                    if y < k {
                        assert(before(v0[y].e, e));
                    } else {
                        assert(before(e, v0[y].e));
                    }
                }
            }
            assert forall|i: int| 0 <= i < n + 1 implies exists|x: int|
                0 <= x < v1.len() && belongs(
                    #[trigger] s[i],
                    (#[trigger] v1[x]).e.key,
                    v1[x].e.packed_move,
                ) by {
                if i < n {
                    let y = choose|y: int|
                        0 <= y < v0.len() && belongs(
                            s[i],
                            (#[trigger] v0[y]).e.key,
                            v0[y].e.packed_move,
                        );
                    let x = if y < k {
                        y
                    } else {
                        y + 1
                    };
                    assert(v1[x] == v0[y]);
                } else {
                    assert(belongs(s[i], v1[k as int].e.key, v1[k as int].e.packed_move));
                }
            }
        }
    }
}

/// A key that has not been gathered has not occurred.
proof fn new_key(s: Seq<ExpEntry>, v: Seq<Gathered>, e: ExpEntry, n: int, k: int)
    requires
        0 <= n <= s.len(),
        0 <= k <= v.len(),
        gathers(v, s, n),
        forall|j: int| 0 <= j < k ==> before((#[trigger] v[j]).e, e),
        forall|j: int| k <= j < v.len() ==> before(e, (#[trigger] v[j]).e),
    ensures
        gathered(s, e.key, e.packed_move, n) == nothing_of(e.key, e.packed_move),
{
    assert forall|i: int| 0 <= i < n implies !belongs(#[trigger] s[i], e.key, e.packed_move) by {
        let x = choose|x: int|
            0 <= x < v.len() && belongs(s[i], (#[trigger] v[x]).e.key, v[x].e.packed_move);
        if x < k {
            assert(before(v[x].e, e));
        } else {
            assert(before(e, v[x].e));
        }
    }
    gathered_nothing(s, e.key, e.packed_move, n);
}

proof fn gathered_nothing(s: Seq<ExpEntry>, key: u64, mv: u16, n: int)
    requires
        0 <= n <= s.len(),
        forall|i: int| 0 <= i < n ==> !belongs(#[trigger] s[i], key, mv),
    ensures
        gathered(s, key, mv, n) == nothing_of(key, mv),
    decreases n,
{
    if n > 0 {
        gathered_nothing(s, key, mv, n - 1);
    }
}

/// Merges entries: one for each key and move, sorted, each gathered from the
/// entries in their order.
pub fn merge_entries(entries: &[ExpEntry], clrsrc_first: bool) -> (out: Vec<ExpEntry>)
    ensures
        strictly_sorted(out@),
        forall|k: int|
            0 <= k < out@.len() ==> (#[trigger] out@[k]) == merged(
                gathered(
                    entries@,
                    out@[k].key,
                    out@[k].packed_move,
                    entries@.len() as int,
                ),
                clrsrc_first,
            ) && occurs(entries@, entries@.len() as int, out@[k]),
        forall|i: int|
            0 <= i < entries@.len() ==> occurs(out@, out@.len() as int, #[trigger] entries@[i]),
{
    let mut v: Vec<Gathered> = Vec::new();
    let mut i: usize = 0;
    let len: usize = entries.len();
    while i < len
        invariant
            len == entries@.len(),
            i <= len,
            gathers(v@, entries@, i as int),
        decreases len - i,
    {
        gather(&mut v, entries, i);
        i = i + 1;
    }
    let mut out: Vec<ExpEntry> = Vec::new();
    let mut k: usize = 0;
    let ghost s = entries@;
    while k < v.len()
        invariant
            s == entries@,
            k <= v@.len(),
            out@.len() == k,
            gathers(v@, s, s.len() as int),
            forall|x: int|
                0 <= x < k ==> (#[trigger] out@[x]) == merged(v@[x], clrsrc_first),
        decreases v@.len() - k,
    {
        proof {
            gathered_keeps(s, v@[k as int].e.key, v@[k as int].e.packed_move, s.len() as int);
        }
        out.push(finish(&v[k], clrsrc_first));
        k = k + 1;
    }
    proof {
        let g = gathered_entries(v@);
        assert forall|a: int, b: int| 0 <= a < b < out@.len() implies before(
            #[trigger] out@[a],
            #[trigger] out@[b],
        ) by {
            assert(before(g[a], g[b]));
        }
        assert forall|x: int| 0 <= x < out@.len() implies (#[trigger] out@[x]) == merged(
            gathered(s, out@[x].key, out@[x].packed_move, s.len() as int),
            clrsrc_first,
        ) && occurs(s, s.len() as int, out@[x]) by {
            assert(v@[x] == gathered(s, v@[x].e.key, v@[x].e.packed_move, s.len() as int));
            assert(occurs(s, s.len() as int, v@[x].e));
            let y = choose|y: int|
                0 <= y < s.len() && belongs(#[trigger] s[y], v@[x].e.key, v@[x].e.packed_move);
            assert(belongs(s[y], out@[x].key, out@[x].packed_move));
        }
        assert forall|y: int| 0 <= y < s.len() implies occurs(
            out@,
            out@.len() as int,
            #[trigger] s[y],
        ) by {
            let x = choose|x: int|
                0 <= x < v@.len() && belongs(s[y], (#[trigger] v@[x]).e.key, v@[x].e.packed_move);
            assert(belongs(out@[x], s[y].key, s[y].packed_move));
        }
    }
    out
}

// ---- Writing ----
/// The header of a file: the letters, version 2, the flags, the number of
/// entries, the time of writing and eight bytes in reserve.
pub open spec fn header_bytes(flags: u16, count: u64, timestamp: u64) -> Seq<u8> {
    seq![74u8, 66u8, 75u8, 50u8] + le_bytes(2, 2) + le_bytes(flags as nat, 2) + le_bytes(
        count as nat,
        8,
    ) + le_bytes(timestamp as nat, 8) + le_bytes(0, 8)
}

/// The bytes of entries, one after another.
pub open spec fn body_bytes(s: Seq<ExpEntry>) -> Seq<u8>
    decreases s.len(),
{
    if s.len() == 0 {
        Seq::empty()
    } else {
        body_bytes(s.drop_last()) + entry_bytes(s.last())
    }
}

/// The place of an entry among the first `n`: after all that it does not come before.
pub open spec fn place_among(s: Seq<ExpEntry>, e: ExpEntry, n: int) -> int
    decreases n,
{
    if n > 0 && before(e, s[n - 1]) {
        place_among(s, e, n - 1)
    } else {
        n
    }
}

/// Entries in order of key and move. Those that agree in both keep their order.
pub open spec fn in_file_order(s: Seq<ExpEntry>) -> Seq<ExpEntry>
    decreases s.len(),
{
    if s.len() == 0 {
        s
    } else {
        let rest = in_file_order(s.drop_last());
        rest.insert(place_among(rest, s.last(), rest.len() as int), s.last())
    }
}

/// No entry comes before an earlier one.
pub open spec fn ordered(s: Seq<ExpEntry>) -> bool {
    forall|i: int, j: int| 0 <= i < j < s.len() ==> !before(#[trigger] s[j], #[trigger] s[i])
}

proof fn place_splits(s: Seq<ExpEntry>, e: ExpEntry, n: int)
    requires
        0 <= n <= s.len(),
        ordered(s),
    ensures
        0 <= place_among(s, e, n) <= n,
        forall|j: int| 0 <= j < place_among(s, e, n) ==> !before(e, #[trigger] s[j]),
        forall|j: int| place_among(s, e, n) <= j < n ==> before(e, #[trigger] s[j]),
    decreases n,
{
    if n > 0 && before(e, s[n - 1]) {
        place_splits(s, e, n - 1);
    } else if n > 0 {
        assert forall|j: int| 0 <= j < n implies !before(e, #[trigger] s[j]) by {
            if j < n - 1 {
                assert(!before(s[n - 1], s[j]));
            }
        }
    }
}

/// Sorting orders the entries and neither adds nor drops one.
pub proof fn sorting_orders(s: Seq<ExpEntry>)
    ensures
        ordered(in_file_order(s)),
        in_file_order(s).len() == s.len(),
        in_file_order(s).to_multiset() == s.to_multiset(),
    decreases s.len(),
{
    broadcast use vstd::seq_lib::group_to_multiset_ensures;

    if s.len() > 0 {
        let t = s.drop_last();
        let e = s.last();
        sorting_orders(t);
        let rest = in_file_order(t);
        let k = place_among(rest, e, rest.len() as int);
        place_splits(rest, e, rest.len() as int);
        let r = in_file_order(s);
        assert(r == rest.insert(k, e));
        assert forall|i: int, j: int| 0 <= i < j < r.len() implies !before(
            #[trigger] r[j],
            #[trigger] r[i],
        ) by {
            let a = if i < k {
                i
            } else {
                i - 1
            };
            let b = if j < k {
                j
            } else {
                j - 1
            };
            if i != k && j != k {
                assert(r[i] == rest[a] && r[j] == rest[b]);
                assert(!before(rest[b], rest[a]));
            } else if i == k {
                assert(r[j] == rest[b]);
                assert(before(e, rest[b]));
            } else {
                assert(r[i] == rest[a]);
                assert(!before(e, rest[a]));
            }
        }
        assert(s =~= t.push(e));
        vstd::seq_lib::to_multiset_insert(rest, k, e);
    }
}

/// Entries that ascend strictly stay as they are.
pub proof fn sorted_stays(s: Seq<ExpEntry>)
    requires
        strictly_sorted(s),
    ensures
        in_file_order(s) == s,
    decreases s.len(),
{
    if s.len() > 0 {
        let t = s.drop_last();
        assert forall|i: int, j: int| 0 <= i < j < t.len() implies before(
            #[trigger] t[i],
            #[trigger] t[j],
        ) by {
            assert(before(s[i], s[j]));
        }
        sorted_stays(t);
        if t.len() > 0 {
            assert(before(s[t.len() - 1], s[t.len() as int]));
        }
        assert(place_among(t, s.last(), t.len() as int) == t.len());
        assert(t.insert(t.len() as int, s.last()) =~= s);
    }
}

fn sort_entries(entries: &[ExpEntry]) -> (v: Vec<ExpEntry>)
    ensures
        v@ == in_file_order(entries@),
{
    let mut v: Vec<ExpEntry> = Vec::new();
    let mut i: usize = 0;
    assert(entries@.take(0) =~= Seq::empty());
    while i < entries.len()
        invariant
            i <= entries@.len(),
            v@ == in_file_order(entries@.take(i as int)),
        decreases entries@.len() - i,
    {
        let e: ExpEntry = entries[i];
        let ghost t = entries@.take(i as int);
        proof {
            sorting_orders(t);
        }
        let mut k: usize = v.len();
        while k > 0 && (e.key < v[k - 1].key || (e.key == v[k - 1].key && e.packed_move < v[k
            - 1].packed_move))
            invariant
                k <= v@.len(),
                place_among(v@, e, v@.len() as int) == place_among(v@, e, k as int),
            decreases k,
        {
            k = k - 1;
        }
        v.insert(k, e);
        assert(entries@.take(i + 1).drop_last() =~= t);
        i = i + 1;
    }
    assert(entries@.take(i as int) =~= entries@);
    v
}

fn push_header(out: &mut Vec<u8>, flags: u16, count: u64, timestamp: u64)
    ensures
        final(out)@ == old(out)@ + header_bytes(flags, count, timestamp),
{
    out.push(74);
    out.push(66);
    out.push(75);
    out.push(50);
    push_le(out, 2, 2);
    push_le(out, flags as u64, 2);
    push_le(out, count, 8);
    push_le(out, timestamp, 8);
    push_le(out, 0, 8);
    assert(out@ =~= old(out)@ + header_bytes(flags, count, timestamp));
}

fn push_body(out: &mut Vec<u8>, v: &Vec<ExpEntry>)
    ensures
        final(out)@ == old(out)@ + body_bytes(v@),
{
    let ghost start = out@;
    let mut i: usize = 0;
    assert(v@.take(0) =~= Seq::empty());
    assert(out@ =~= start + body_bytes(v@.take(0)));
    while i < v.len()
        invariant
            i <= v@.len(),
            out@ == start + body_bytes(v@.take(i as int)),
        decreases v@.len() - i,
    {
        push_entry(out, &v[i]);
        proof {
            let t = v@.take(i + 1);
            assert(t.drop_last() =~= v@.take(i as int));
            assert(out@ =~= start + body_bytes(t));
        }
        i = i + 1;
    }
    assert(v@.take(i as int) =~= v@);
}

/// The bytes of a sorted file that holds the entries.
pub fn write_sorted_main(entries: &[ExpEntry], timestamp: u64) -> (d: Vec<u8>)
    ensures
        d@ == header_bytes(HEADER_SORTED, entries@.len() as u64, timestamp) + body_bytes(
            in_file_order(entries@),
        ),
{
    let v: Vec<ExpEntry> = sort_entries(entries);
    let mut d: Vec<u8> = Vec::new();
    push_header(&mut d, HEADER_SORTED, entries.len() as u64, timestamp);
    push_body(&mut d, &v);
    assert(d@ =~= header_bytes(HEADER_SORTED, entries@.len() as u64, timestamp) + body_bytes(
        in_file_order(entries@),
    ));
    d
}

/// The parts of a header.
proof fn header_parts(flags: u16, count: u64, timestamp: u64)
    ensures
        ({
            let h = header_bytes(flags, count, timestamp);
            &&& h.len() == 32
            &&& has_magic(h)
            &&& h.subrange(4, 6) == le_bytes(2, 2)
            &&& h.subrange(6, 8) == le_bytes(flags as nat, 2)
            &&& h.subrange(8, 16) == le_bytes(count as nat, 8)
        }),
        le_num(le_bytes(2, 2)) == 2,
        le_num(le_bytes(flags as nat, 2)) == flags,
        le_num(le_bytes(count as nat, 8)) == count,
{
    let h = header_bytes(flags, count, timestamp);
    number_bytes(2, 0, count);
    number_bytes(flags, 0, timestamp);
    number_bytes(flags, 0, 0);
    assert(h.subrange(4, 6) =~= le_bytes(2, 2));
    assert(h.subrange(6, 8) =~= le_bytes(flags as nat, 2));
    assert(h.subrange(8, 16) =~= le_bytes(count as nat, 8));
}

proof fn body_parts(s: Seq<ExpEntry>)
    ensures
        body_bytes(s).len() == 32 * s.len(),
        forall|i: int|
            0 <= i < s.len() ==> body_bytes(s).subrange(32 * i, 32 * i + 32) == entry_bytes(
                #[trigger] s[i],
            ),
    decreases s.len(),
{
    if s.len() > 0 {
        let t = s.drop_last();
        body_parts(t);
        entry_parts(s.last());
        let b = body_bytes(s);
        let n = t.len() as int;
        assert forall|i: int| 0 <= i < s.len() implies b.subrange(32 * i, 32 * i + 32)
            == entry_bytes(#[trigger] s[i]) by {
            if i < n {
                assert(t[i] == s[i]);
                assert(b.subrange(32 * i, 32 * i + 32) =~= body_bytes(t).subrange(
                    32 * i,
                    32 * i + 32,
                ));
            } else {
                assert(b.subrange(32 * n, 32 * n + 32) =~= entry_bytes(s.last()));
            }
        }
    }
}

/// A file holds entries: it can be read, and they are all that it holds.
pub open spec fn file_holds(d: Seq<u8>, s: Seq<ExpEntry>) -> bool {
    &&& readable(d)
    &&& held_entries(d) == s.len()
    &&& d.len() >= 32 + 32 * s.len()
    &&& forall|i: int| 0 <= i < s.len() ==> entry_at(d, 32 + 32 * i) == #[trigger] s[i]
}

/// What is written is read back: a file of a header and entries holds them.
pub proof fn written_is_read(flags: u16, timestamp: u64, s: Seq<ExpEntry>)
    requires
        s.len() <= u64::MAX,
    ensures
        ({
            let d = header_bytes(flags, s.len() as u64, timestamp) + body_bytes(s);
            &&& file_holds(d, s)
            &&& u16_at(d, 6) == flags
            &&& d.len() == 32 + 32 * s.len()
        }),
{
    let h = header_bytes(flags, s.len() as u64, timestamp);
    let d = h + body_bytes(s);
    header_parts(flags, s.len() as u64, timestamp);
    body_parts(s);
    assert(d.subrange(4, 6) =~= h.subrange(4, 6));
    assert(d.subrange(6, 8) =~= h.subrange(6, 8));
    assert(d.subrange(8, 16) =~= h.subrange(8, 16));
    assert(d[0] == h[0] && d[1] == h[1] && d[2] == h[2] && d[3] == h[3]);
    assert((d.len() - 32) / 32 == s.len()) by {
        assert(d.len() - 32 == 32 * s.len());
    }
    assert forall|i: int| 0 <= i < s.len() implies entry_at(d, 32 + 32 * i) == #[trigger] s[i] by {
        assert(d.subrange(32 + 32 * i, 32 + 32 * i + 32) =~= body_bytes(s).subrange(
            32 * i,
            32 * i + 32,
        ));
        entry_roundtrip(d, 32 + 32 * i, s[i]);
    }
}

/// A book that is read from a file has the entries that the file holds.
pub proof fn book_has_held(d: Seq<u8>, s: Seq<ExpEntry>, b: ExpBook)
    requires
        file_holds(d, s),
        b.num_entries == held_entries(d),
        b.data@ == d.subrange(32, 32 + 32 * held_entries(d)),
    ensures
        b.entries() == s,
{
    assert forall|i: int| 0 <= i < s.len() implies b.at(i) == #[trigger] s[i] by {
        let x = b.data@;
        let off = 32 * i;
        assert(x.subrange(off, off + 8) =~= d.subrange(32 + off, 32 + off + 8));
        two_bytes(x, d, off, 8);
        two_bytes(x, d, off, 10);
        two_bytes(x, d, off, 12);
        two_bytes(x, d, off, 14);
        two_bytes(x, d, off, 18);
        two_bytes(x, d, off, 20);
        two_bytes(x, d, off, 22);
        two_bytes(x, d, off, 24);
        two_bytes(x, d, off, 26);
        two_bytes(x, d, off, 28);
        assert(x[off + 16] == d[32 + off + 16]);
        assert(x[off + 17] == d[32 + off + 17]);
        assert(entry_at(d, 32 + 32 * i) == s[i]);
    }
    assert(b.entries() =~= s);
}

proof fn two_bytes(x: Seq<u8>, d: Seq<u8>, off: int, k: int)
    requires
        0 <= off,
        0 <= k <= 30,
        off + 32 <= x.len(),
        32 + x.len() <= d.len(),
        x == d.subrange(32, 32 + x.len() as int),
    ensures
        x.subrange(off + k, off + k + 2) == d.subrange(32 + off + k, 32 + off + k + 2),
{
    assert(x.subrange(off + k, off + k + 2) =~= d.subrange(32 + off + k, 32 + off + k + 2));
}

/// A sorted file gives a book in order.
pub proof fn sorted_file_in_order(s: Seq<ExpEntry>, b: ExpBook)
    requires
        ordered(s),
        b.entries() == s,
        b.sorted,
    ensures
        b.in_order(),
{
    let keys = b.keys();
    assert forall|i: int, j: int| 0 <= i <= j < b.num_entries implies #[trigger] keys(i)
        <= #[trigger] keys(j) by {
        assert(b.entries()[i] == b.at(i));
        assert(b.entries()[j] == b.at(j));
        if i < j {
            assert(!before(s[j], s[i]));
        }
    }
}

// ---- Overlays ----
/// Entries that wait to be appended to an overlay file.
pub struct OverlayWriter {
    pub pending: Vec<ExpEntry>,
    pub on_disk: u64,
}

/// What is written to an overlay file: a header if the file has none, entries
/// at its end, and the number of entries at byte 8.
pub struct OverlayFlush {
    pub header: Option<Vec<u8>>,
    pub body: Vec<u8>,
    pub count: Vec<u8>,
    pub flushed: usize,
}

/// How many entries the header of an overlay file declares.
pub open spec fn declared_entries(raw: Seq<u8>) -> u64 {
    if has_magic(raw) {
        le_num(raw.subrange(8, 16)) as u64
    } else {
        0
    }
}

/// How many entries are on disk after a flush.
pub open spec fn count_after(w: OverlayWriter, file_len: u64) -> u64 {
    let start = if file_len < 32 {
        0
    } else {
        w.on_disk as int
    };
    if start + w.pending@.len() > u64::MAX {
        (start + w.pending@.len() - u64::MAX - 1) as u64
    } else {
        (start + w.pending@.len()) as u64
    }
}

/// An overlay file after a flush.
pub open spec fn flushed_file(file: Seq<u8>, f: OverlayFlush) -> Seq<u8> {
    let d = (match f.header {
        Some(h) => h@,
        None => file,
    }) + f.body@;
    d.subrange(0, 8) + f.count@ + d.skip(16)
}

impl OverlayWriter {
    /// A writer for a file with the given bytes; no bytes for a file that is
    /// not there.
    pub fn open(raw: &[u8]) -> (w: OverlayWriter)
        ensures
            w.pending@ == Seq::<ExpEntry>::empty(),
            w.on_disk == declared_entries(raw@),
    {
        let on_disk: u64 = if raw.len() >= 32 && raw[0] == 74 && raw[1] == 66 && raw[2] == 75
            && raw[3] == 50 {
            read_le(raw, 8, 8)
        } else {
            0
        };
        OverlayWriter { pending: Vec::new(), on_disk }
    }

    pub fn push(&mut self, e: ExpEntry)
        ensures
            final(self).pending@ == old(self).pending@.push(e),
            final(self).on_disk == old(self).on_disk,
    {
        self.pending.push(e);
    }

    /// What a flush writes to a file of the given length; nothing if no entry
    /// waits.
    pub fn flush(&mut self, file_len: u64, timestamp: u64) -> (r: Option<OverlayFlush>)
        ensures
            (r is None) == (old(self).pending@.len() == 0),
            r is None ==> *final(self) == *old(self),
            r matches Some(f) ==> {
                &&& f.header is Some == (file_len < 32)
                &&& f.header matches Some(h) ==> h@ == header_bytes(HEADER_OVERLAY, 0, timestamp)
                &&& f.body@ == body_bytes(old(self).pending@)
                &&& f.count@ == le_bytes(count_after(*old(self), file_len) as nat, 8)
                &&& f.flushed == old(self).pending@.len()
                &&& final(self).pending@ == Seq::<ExpEntry>::empty()
                &&& final(self).on_disk == count_after(*old(self), file_len)
            },
    {
        if self.pending.len() == 0 {
            return None;
        }
        let mut header: Option<Vec<u8>> = None;
        if file_len < 32 {
            let mut h: Vec<u8> = Vec::new();
            push_header(&mut h, HEADER_OVERLAY, 0, timestamp);
            assert(h@ =~= header_bytes(HEADER_OVERLAY, 0, timestamp));
            header = Some(h);
            self.on_disk = 0;
        }
        let n: usize = self.pending.len();
        let mut body: Vec<u8> = Vec::new();
        push_body(&mut body, &self.pending);
        assert(body@ =~= body_bytes(old(self).pending@));
        self.pending = Vec::new();
        self.on_disk = self.on_disk.wrapping_add(n as u64);
        let mut count: Vec<u8> = Vec::new();
        push_le(&mut count, self.on_disk, 8);
        assert(count@ =~= le_bytes(self.on_disk as nat, 8));
        Some(OverlayFlush { header, body, count, flushed: n })
    }
}

/// A flush appends: the file then holds what it held, and after it the entries
/// that waited.
pub proof fn flush_appends(
    file: Seq<u8>,
    s: Seq<ExpEntry>,
    waiting: Seq<ExpEntry>,
    f: OverlayFlush,
)
    requires
        f.header is None ==> file_holds(file, s) && file.len() == 32 + 32 * s.len(),
        f.header matches Some(h) ==> s.len() == 0 && exists|ts: u64|
            h@ == #[trigger] header_bytes(HEADER_OVERLAY, 0, ts),
        f.body@ == body_bytes(waiting),
        s.len() + waiting.len() <= u64::MAX,
        f.count@ == le_bytes((s.len() + waiting.len()) as nat, 8),
    ensures
        file_holds(flushed_file(file, f), s + waiting),
        flushed_file(file, f).len() == 32 + 32 * (s + waiting).len(),
{
    let base = match f.header {
        Some(h) => h@,
        None => file,
    };
    if f.header is Some {
        let h = f.header->0@;
        let ts = choose|ts: u64| h == #[trigger] header_bytes(HEADER_OVERLAY, 0, ts);
        header_parts(HEADER_OVERLAY, 0, ts);
    }
    let n = s.len() as int;
    let d = base + f.body@;
    let out = flushed_file(file, f);
    let all = s + waiting;
    body_parts(waiting);
    number_bytes(0, 0, all.len() as u64);
    assert(out.len() == 32 + 32 * all.len());
    assert(out.subrange(4, 6) =~= base.subrange(4, 6));
    assert(out.subrange(8, 16) =~= f.count@);
    assert(out[0] == base[0] && out[1] == base[1] && out[2] == base[2] && out[3] == base[3]);
    assert((out.len() - 32) / 32 == all.len()) by {
        assert(out.len() - 32 == 32 * all.len());
    }
    assert forall|i: int| 0 <= i < all.len() implies entry_at(out, 32 + 32 * i)
        == #[trigger] all[i] by {
        let off = 32 + 32 * i;
        if i < n {
            assert(entry_at(file, off) == s[i]);
            same_entry(out, file, off);
        } else {
            assert(out.subrange(off, off + 32) =~= f.body@.subrange(32 * (i - n), 32 * (i - n) + 32));
            assert(all[i] == waiting[i - n]);
            entry_roundtrip(out, off, waiting[i - n]);
        }
    }
}

/// The same bytes are the same entry.
proof fn same_entry(a: Seq<u8>, b: Seq<u8>, off: int)
    requires
        0 <= off,
        off + 32 <= a.len(),
        off + 32 <= b.len(),
        forall|k: int| off <= k < off + 32 ==> #[trigger] a[k] == b[k],
    ensures
        entry_at(a, off) == entry_at(b, off),
{
    assert(a.subrange(off, off + 8) =~= b.subrange(off, off + 8));
    assert(a.subrange(off + 8, off + 8 + 2) =~= b.subrange(off + 8, off + 8 + 2));
    assert(a.subrange(off + 10, off + 10 + 2) =~= b.subrange(off + 10, off + 10 + 2));
    assert(a.subrange(off + 12, off + 12 + 2) =~= b.subrange(off + 12, off + 12 + 2));
    assert(a.subrange(off + 14, off + 14 + 2) =~= b.subrange(off + 14, off + 14 + 2));
    assert(a.subrange(off + 18, off + 18 + 2) =~= b.subrange(off + 18, off + 18 + 2));
    assert(a.subrange(off + 20, off + 20 + 2) =~= b.subrange(off + 20, off + 20 + 2));
    assert(a.subrange(off + 22, off + 22 + 2) =~= b.subrange(off + 22, off + 22 + 2));
    assert(a.subrange(off + 24, off + 24 + 2) =~= b.subrange(off + 24, off + 24 + 2));
    assert(a.subrange(off + 26, off + 26 + 2) =~= b.subrange(off + 26, off + 26 + 2));
    assert(a.subrange(off + 28, off + 28 + 2) =~= b.subrange(off + 28, off + 28 + 2));
}

} // verus!
