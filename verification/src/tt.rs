//! Transposition table: two entries per bucket, with ageing by generations.

use crate::types::Move;
use vstd::arithmetic::power2::{lemma2_to64, lemma_pow2_pos, lemma_pow2_unfold, pow2};
use vstd::prelude::*;

verus! {

pub const FLAG_NONE: u8 = 0;

/// Exact score.
pub const FLAG_EXACT: u8 = 1;

/// The score is at least the stored one.
pub const FLAG_LOWER: u8 = 2;

/// The score is at most the stored one.
pub const FLAG_UPPER: u8 = 3;

pub const FLAG_TYPE_MASK: u8 = 3;

/// The node lies on a principal variation.
pub const FLAG_WAS_PV: u8 = 4;

pub const BUCKET_SIZE: usize = 2;

/// Bytes of one bucket.
pub const BUCKET_BYTES: usize = 32;

/// How many buckets the fill rate looks at.
pub const SAMPLE: usize = 500;

#[derive(Copy, Clone, PartialEq, Eq, Debug, Structural)]
pub struct TTEntry {
    pub key16: u16,
    pub depth: i8,
    pub flag: u8,
    pub score: i16,
    pub eval: i16,
    pub best_move: Move,
    pub gen: u8,
}

impl TTEntry {
    /// The entry holds a score.
    pub open spec fn used(self) -> bool {
        self.flag & FLAG_TYPE_MASK != 0
    }

    pub open spec fn empty_entry() -> TTEntry {
        TTEntry { key16: 0, depth: (-1) as i8, flag: 0, score: 0, eval: 0, best_move: Move(0), gen: 0 }
    }

    pub fn empty() -> (e: TTEntry)
        ensures
            e == TTEntry::empty_entry(),
    {
        TTEntry {
            key16: 0,
            depth: -1,
            flag: FLAG_NONE,
            score: 0,
            eval: 0,
            best_move: Move::null(),
            gen: 0,
        }
    }
}

/// The two entries of a bucket.
#[derive(Copy, Clone, PartialEq, Eq, Debug, Structural)]
pub struct TTBucket {
    pub first: TTEntry,
    pub second: TTEntry,
}

/// The table. The number of buckets is a power of two; `mask` is one less.
pub struct TTable {
    pub buckets: Vec<TTBucket>,
    pub mask: usize,
    pub gen: u8,
}

/// The table of one search.
pub type SharedTT = TTable;

/// The 16 hash bits that an entry keeps.
pub open spec fn short_key(hash: u64) -> u16 {
    (hash >> 48) as u16
}

/// How many generations ago an entry was written.
pub open spec fn age(gen: u8, e: TTEntry) -> int {
    if gen >= e.gen {
        gen - e.gen
    } else {
        gen + 256 - e.gen
    }
}

/// The worth of an entry: its depth, less for each generation of age.
pub open spec fn priority(gen: u8, e: TTEntry) -> int {
    e.depth - 8 * age(gen, e)
}

/// The entry is empty or belongs to the same position.
pub open spec fn free_for(e: TTEntry, key: u16) -> bool {
    e.key16 == key || !e.used()
}

/// The second entry is the one to replace: the first is not free, and the second
/// is free or worth less.
pub open spec fn replaces_second(b: TTBucket, key: u16, gen: u8) -> bool {
    !free_for(b.first, key) && (free_for(b.second, key) || priority(gen, b.second) < priority(
        gen,
        b.first,
    ))
}

/// The entry may be replaced by one of this depth.
pub open spec fn yields(e: TTEntry, key: u16, depth: i8, gen: u8) -> bool {
    free_for(e, key) || depth >= e.depth || gen != e.gen
}

/// The bucket after a store.
pub open spec fn stored(b: TTBucket, e: TTEntry) -> TTBucket {
    if replaces_second(b, e.key16, e.gen) {
        if yields(b.second, e.key16, e.depth, e.gen) {
            TTBucket { first: b.first, second: e }
        } else {
            b
        }
    } else if yields(b.first, e.key16, e.depth, e.gen) {
        TTBucket { first: e, second: b.second }
    } else {
        b
    }
}

/// What a bucket holds for a position.
pub open spec fn found(b: TTBucket, key: u16) -> Option<TTEntry> {
    if b.first.key16 == key && b.first.used() {
        Some(b.first)
    } else if b.second.key16 == key && b.second.used() {
        Some(b.second)
    } else {
        None
    }
}

/// The entries of the bucket that the current generation wrote.
pub open spec fn fresh(b: TTBucket, gen: u8) -> int {
    (if b.first.flag != 0 && b.first.gen == gen {
        1int
    } else {
        0
    }) + (if b.second.flag != 0 && b.second.gen == gen {
        1int
    } else {
        0
    })
}

/// The fresh entries of the first `n` buckets.
pub open spec fn fresh_entries(b: Seq<TTBucket>, n: int, gen: u8) -> int
    decreases n,
{
    if n <= 0 {
        0
    } else {
        fresh_entries(b, n - 1, gen) + fresh(b[n - 1], gen)
    }
}

/// The number of buckets of a table of this size: the largest power of two that
/// fits, and at least 1.
pub open spec fn is_bucket_count(mb: int, n: int) -> bool {
    &&& exists|k: nat| n == #[trigger] pow2(k)
    &&& n == 1 || n <= mb * 32768
    &&& mb * 32768 < 2 * n
}

/// A size in megabytes gives one number of buckets only.
pub proof fn bucket_count_once(mb: int, m: int, n: int)
    requires
        is_bucket_count(mb, m),
        is_bucket_count(mb, n),
    ensures
        m == n,
{
    let j = choose|j: nat| m == #[trigger] pow2(j);
    let k = choose|k: nat| n == #[trigger] pow2(k);
    lemma_pow2_pos(j);
    lemma_pow2_pos(k);
    if j < k {
        doubles(j, k);
    } else if k < j {
        doubles(k, j);
    }
}

/// A larger power of two is at least twice a smaller one.
proof fn doubles(j: nat, k: nat)
    requires
        j < k,
    ensures
        pow2(k) >= 2 * pow2(j),
    decreases k,
{
    lemma_pow2_unfold(k);
    if k > j + 1 {
        doubles(j, (k - 1) as nat);
        lemma_pow2_pos(j);
    }
}

impl TTable {
    /// The table is as large as a size in megabytes makes it, and empty.
    pub open spec fn empty_of(&self, mb: int) -> bool {
        &&& self.wf()
        &&& is_bucket_count(mb, self.buckets@.len() as int)
        &&& forall|i: int|
            0 <= i < self.buckets@.len() ==> #[trigger] self.buckets@[i] == (TTBucket {
                first: TTEntry::empty_entry(),
                second: TTEntry::empty_entry(),
            })
        &&& self.gen == 0
    }

    pub open spec fn wf(&self) -> bool {
        self.mask < usize::MAX && self.buckets@.len() == self.mask + 1
    }

    /// The bucket of a position.
    pub open spec fn slot(&self, hash: u64) -> int {
        ((hash as usize) & self.mask) as int
    }

    /// A table with this many megabytes.
    pub fn new(mb: usize) -> (t: TTable)
        requires
            mb * 1048576 <= usize::MAX,
        ensures
            t.empty_of(mb as int),
    {
        let raw: usize = mb * 1048576 / BUCKET_BYTES;
        assert(raw == mb * 32768);
        let mut n: usize = 1;
        let ghost mut k: nat = 0;
        proof {
            lemma2_to64();
        }
        while n <= raw / 2
            invariant
                n == pow2(k),
                n >= 1,
                n == 1 || n <= raw,
                raw == mb * 32768,
                mb * 1048576 <= usize::MAX,
            decreases raw - n,
        {
            n = n * 2;
            proof {
                lemma_pow2_unfold(k + 1);
                k = k + 1;
            }
        }
        let e: TTEntry = TTEntry::empty();
        let b: TTBucket = TTBucket { first: e, second: e };
        let buckets: Vec<TTBucket> = vec![b; n];
        TTable { buckets, mask: n - 1, gen: 0 }
    }

    /// A table with this many megabytes.
    pub fn new_shared(mb: usize) -> (t: SharedTT)
        requires
            mb * 1048576 <= usize::MAX,
        ensures
            t.empty_of(mb as int),
    {
        Self::new(mb)
    }

    /// Begins a new generation; after 255 comes 0.
    pub fn new_generation(&mut self)
        requires
            old(self).wf(),
        ensures
            final(self).wf(),
            final(self).buckets == old(self).buckets,
            final(self).mask == old(self).mask,
            final(self).gen == (old(self).gen + 1) % 256,
    {
        self.gen = if self.gen == 255 {
            0
        } else {
            self.gen + 1
        };
    }

    pub fn current_gen(&self) -> (g: u8)
        ensures
            g == self.gen,
    {
        self.gen
    }

    fn bucket_index(&self, hash: u64) -> (i: usize)
        requires
            self.wf(),
        ensures
            i == self.slot(hash),
            i < self.buckets@.len(),
    {
        let h: usize = hash as usize;
        let m: usize = self.mask;
        assert(h & m <= m) by (bit_vector);
        h & m
    }

    fn key16(hash: u64) -> (k: u16)
        ensures
            k == short_key(hash),
    {
        (hash >> 48) as u16
    }

    /// The entry of a position, if the table holds one.
    pub fn probe(&self, hash: u64) -> (r: Option<TTEntry>)
        requires
            self.wf(),
        ensures
            r == found(self.buckets@[self.slot(hash)], short_key(hash)),
    {
        let b: TTBucket = self.buckets[self.bucket_index(hash)];
        let k: u16 = Self::key16(hash);
        if b.first.key16 == k && (b.first.flag & FLAG_TYPE_MASK) != FLAG_NONE {
            Some(b.first)
        } else if b.second.key16 == k && (b.second.flag & FLAG_TYPE_MASK) != FLAG_NONE {
            Some(b.second)
        } else {
            None
        }
    }

    fn worth(gen: u8, e: TTEntry) -> (p: i32)
        ensures
            p == priority(gen, e),
    {
        let a: i32 = if gen >= e.gen {
            gen as i32 - e.gen as i32
        } else {
            gen as i32 + 256 - e.gen as i32
        };
        e.depth as i32 - 8 * a
    }

    fn is_free(e: TTEntry, key: u16) -> (b: bool)
        ensures
            b == free_for(e, key),
    {
        e.key16 == key || (e.flag & FLAG_TYPE_MASK) == FLAG_NONE
    }

    /// Stores an entry, unless the bucket holds better ones.
    pub fn store(
        &mut self,
        hash: u64,
        depth: i8,
        flag_type: u8,
        was_pv: bool,
        score: i16,
        eval: i16,
        best_move: Move,
    )
        requires
            old(self).wf(),
        ensures
            final(self).wf(),
            final(self).mask == old(self).mask,
            final(self).gen == old(self).gen,
            final(self).buckets@ == old(self).buckets@.update(
                old(self).slot(hash),
                stored(
                    old(self).buckets@[old(self).slot(hash)],
                    new_entry(
                        hash,
                        depth,
                        flag_type,
                        was_pv,
                        score,
                        eval,
                        best_move,
                        old(self).gen,
                    ),
                ),
            ),
    {
        let flag: u8 = flag_type | (if was_pv {
            FLAG_WAS_PV
        } else {
            0
        });
        let idx: usize = self.bucket_index(hash);
        let key16: u16 = Self::key16(hash);
        let gen: u8 = self.gen;
        let e: TTEntry = TTEntry { key16, depth, flag, score, eval, best_move, gen };
        let b: TTBucket = self.buckets[idx];
        let second: bool = !Self::is_free(b.first, key16) && (Self::is_free(b.second, key16)
            || Self::worth(gen, b.second) < Self::worth(gen, b.first));
        let old_entry: TTEntry = if second {
            b.second
        } else {
            b.first
        };
        let mut nb: TTBucket = b;
        if Self::is_free(old_entry, key16) || depth >= old_entry.depth || gen != old_entry.gen {
            if second {
                nb = TTBucket { first: b.first, second: e };
            } else {
                nb = TTBucket { first: e, second: b.second };
            }
        }
        self.buckets.set(idx, nb);
    }

    /// The number of entries of the table.
    pub fn entry_count(&self) -> (n: usize)
        requires
            self.wf(),
            self.buckets@.len() * 2 <= usize::MAX,
        ensures
            n == self.buckets@.len() * 2,
    {
        (self.mask + 1) * BUCKET_SIZE
    }

    /// Empties the table and begins with generation 0.
    pub fn clear(&mut self)
        requires
            old(self).wf(),
        ensures
            final(self).wf(),
            final(self).mask == old(self).mask,
            final(self).gen == 0,
            forall|i: int|
                0 <= i < final(self).buckets@.len() ==> #[trigger] final(self).buckets@[i] == (
                TTBucket { first: TTEntry::empty_entry(), second: TTEntry::empty_entry() }),
    {
        let e: TTEntry = TTEntry::empty();
        let b: TTBucket = TTBucket { first: e, second: e };
        let mut i: usize = 0;
        while i < self.buckets.len()
            invariant
                i <= self.buckets@.len(),
                self.wf(),
                self.mask == old(self).mask,
                b == (TTBucket { first: TTEntry::empty_entry(), second: TTEntry::empty_entry() }),
                forall|j: int| 0 <= j < i ==> #[trigger] self.buckets@[j] == b,
            decreases self.buckets@.len() - i,
        {
            self.buckets.set(i, b);
            i = i + 1;
        }
        self.gen = 0;
    }

    /// The entries of the current generation among the first buckets, per mille.
    pub open spec fn fullness(&self) -> int {
        let sample = if self.buckets@.len() < 500 {
            self.buckets@.len() as int
        } else {
            500
        };
        fresh_entries(self.buckets@, sample, self.gen) * 1000 / (sample * 2)
    }

    /// How full the table is, per mille: the entries of the current generation
    /// among the first buckets.
    pub fn hashfull(&self) -> (n: u32)
        requires
            self.wf(),
        ensures
            n == self.fullness(),
            n <= 1000,
    {
        let len: usize = self.buckets.len();
        let sample: usize = if len < SAMPLE {
            len
        } else {
            SAMPLE
        };
        let mut used: u32 = 0;
        let mut i: usize = 0;
        while i < sample
            invariant
                i <= sample <= self.buckets@.len(),
                sample <= 500,
                used == fresh_entries(self.buckets@, i as int, self.gen),
                used <= 2 * i,
            decreases sample - i,
        {
            let b: TTBucket = self.buckets[i];
            if b.first.flag != FLAG_NONE && b.first.gen == self.gen {
                used = used + 1;
            }
            if b.second.flag != FLAG_NONE && b.second.gen == self.gen {
                used = used + 1;
            }
            i = i + 1;
        }
        let d: u32 = sample as u32 * 2;
        assert(used * 1000 / d as int <= 1000) by (nonlinear_arith)
            requires
                used <= d,
                d > 0,
        ;
        used * 1000 / d
    }
}

/// The entry that a store writes.
pub open spec fn new_entry(
    hash: u64,
    depth: i8,
    flag_type: u8,
    was_pv: bool,
    score: i16,
    eval: i16,
    best_move: Move,
    gen: u8,
) -> TTEntry {
    TTEntry {
        key16: short_key(hash),
        depth,
        flag: flag_type | (if was_pv {
            4
        } else {
            0
        }),
        score,
        eval,
        best_move,
        gen,
    }
}

/// A stored entry is found again, unless the bucket held better ones: after a
/// store that replaces an entry, the position has exactly the new entry.
pub proof fn stored_is_found(b: TTBucket, e: TTEntry)
    requires
        e.used(),
        stored(b, e) != b,
    ensures
        found(stored(b, e), e.key16) == Some(e),
{
}

/// A store on top of an entry of the same position always succeeds.
pub proof fn same_position_is_replaced(b: TTBucket, e: TTEntry)
    requires
        e.used(),
        found(b, e.key16) is Some,
    ensures
        found(stored(b, e), e.key16) == Some(e),
{
}

/// A store never touches what another position's entry says, apart from
/// replacing it: what is found for another key is what was found, or nothing.
pub proof fn others_stay_or_go(b: TTBucket, e: TTEntry, key: u16)
    requires
        key != e.key16,
    ensures
        found(stored(b, e), key) == found(b, key) || found(stored(b, e), key) is None || found(
            stored(b, e),
            key,
        ) == Some(b.second),
{
}

} // verus!
