//! Attack tables of the sliding pieces, indexed by magic numbers.

use crate::bitboard::{
    bit, group_bits, has_and, member, popcount, same_squares, squares, squares_facts,
};
use crate::magic::{
    abs, along, bishop_attacks, bishop_reach, distance, on_ray, on_the_way, rook_attacks,
    rook_reach, slides,
};
use crate::rng::times;
use crate::types::{file, file_of, on_board, rank, rank_of, Square};
use vstd::prelude::*;
use vstd::set_lib::set_int_range;

verus! {

/// A slider of this kind on `s` attacks `t`.
pub open spec fn reach(bishop: bool, occ: u64, s: int, t: int) -> bool {
    if bishop {
        bishop_reach(occ, s, t)
    } else {
        rook_reach(occ, s, t)
    }
}

/// The set holds what a slider attacks.
pub open spec fn is_reach(bb: u64, bishop: bool, occ: u64, s: int) -> bool {
    forall|t: int| 0 <= t < 64 ==> #[trigger] member(bb, t) == reach(bishop, occ, s, t)
}

// ---- Masks ----
/// A piece on `t` can stop a slider on `s` short: `t` is on one of its lines, and
/// not at the end of it.
pub open spec fn matters(bishop: bool, s: int, t: int) -> bool {
    if bishop {
        t != s && abs(file(t) - file(s)) == abs(rank(t) - rank(s)) && 1 <= file(t) <= 6 && 1 <= rank(
            t,
        ) <= 6
    } else {
        t != s && (rank(t) == rank(s) && 1 <= file(t) <= 6 || file(t) == file(s) && 1 <= rank(t)
            <= 6)
    }
}

/// The set holds the squares that matter to a slider.
pub open spec fn is_mask(m: u64, bishop: bool, s: int) -> bool {
    forall|t: int| 0 <= t < 64 ==> #[trigger] member(m, t) == matters(bishop, s, t)
}

/// The squares that matter to a slider, as a set.
pub open spec fn mask_at(bishop: bool, s: int) -> u64 {
    choose|m: u64| is_mask(m, bishop, s)
}

/// There is only one such set.
proof fn mask_unique(m: u64, bishop: bool, s: int)
    requires
        is_mask(m, bishop, s),
    ensures
        m == mask_at(bishop, s),
{
    let n = mask_at(bishop, s);
    assert(is_mask(n, bishop, s));
    assert forall|t: int| 0 <= t < 64 implies #[trigger] member(m, t) == member(n, t) by {}
    same_squares(m, n);
}

/// The set of the squares that a slider attacks.
pub open spec fn reach_set(bishop: bool, occ: u64, s: int) -> u64 {
    choose|bb: u64| is_reach(bb, bishop, occ, s)
}

/// There is only one such set.
proof fn reach_unique(bb: u64, bishop: bool, occ: u64, s: int)
    requires
        is_reach(bb, bishop, occ, s),
    ensures
        bb == reach_set(bishop, occ, s),
{
    let x = reach_set(bishop, occ, s);
    assert(is_reach(x, bishop, occ, s));
    tables_agree_with_rays(bb, x, bishop, occ, s);
}

/// The place of a square that matters, among at most sixteen: its file on one line,
/// and apart from it on the other.
spec fn line_place(bishop: bool, s: int, t: int) -> int {
    if bishop {
        if rank(t) - rank(s) == file(t) - file(s) {
            file(t)
        } else {
            8 + file(t)
        }
    } else if rank(t) == rank(s) {
        file(t)
    } else {
        8 + rank(t)
    }
}

/// Some square matters to a slider, and no more than sixteen do.
proof fn mask_bounds(m: u64, bishop: bool, s: int)
    requires
        on_board(s),
        is_mask(m, bishop, s),
    ensures
        1 <= squares(m).len() <= 16,
{
    squares_facts(m);
    let l = squares(m);
    let df = if file(s) < 4 {
        1int
    } else {
        -1
    };
    let dr = if rank(s) < 4 {
        1int
    } else {
        -1
    };
    let t = if bishop {
        s + 8 * dr + df
    } else {
        s + df
    };
    assert(file(t) == file(s) + df);
    assert(rank(t) == if bishop {
        rank(s) + dr
    } else {
        rank(s)
    });
    assert(matters(bishop, s, t));
    assert(member(m, t));
    assert(l.contains(t));
    let places = l.map_values(|x: int| line_place(bishop, s, x));
    assert forall|i: int, j: int| 0 <= i < j < places.len() implies places[i] != places[j] by {
        let a = l[i];
        let b = l[j];
        assert(member(m, a) && member(m, b));
        assert(matters(bishop, s, a) && matters(bishop, s, b));
        assert(a == 8 * rank(a) + file(a) && b == 8 * rank(b) + file(b));
    }
    assert(places.no_duplicates());
    places.unique_seq_to_set();
    assert forall|x: int| places.to_set().contains(x) implies #[trigger] set_int_range(
        0,
        16,
    ).contains(x) by {
        let i = choose|i: int| 0 <= i < places.len() && places[i] == x;
        assert(member(m, l[i]));
    }
    vstd::set_lib::lemma_int_range(0, 16);
    vstd::set_lib::lemma_len_subset(places.to_set(), set_int_range(0, 16));
}

fn is_relevant(bishop: bool, square: Square, t: Square) -> (b: bool)
    requires
        square < 64,
        t < 64,
    ensures
        b == matters(bishop, square as int, t as int),
{
    let f: u8 = file_of(t);
    let r: u8 = rank_of(t);
    let sf: u8 = file_of(square);
    let sr: u8 = rank_of(square);
    if t == square {
        return false;
    }
    let inner_f: bool = 1 <= f && f <= 6;
    let inner_r: bool = 1 <= r && r <= 6;
    if bishop {
        inner_f && inner_r && (f + sr == sf + r || f + r == sf + sr)
    } else {
        (r == sr && inner_f) || (f == sf && inner_r)
    }
}

/// The squares where a piece can stop a slider short.
pub fn slider_mask(bishop: bool, square: Square) -> (m: u64)
    requires
        square < 64,
    ensures
        forall|t: int| 0 <= t < 64 ==> #[trigger] member(m, t) == matters(bishop, square as int, t),
{
    broadcast use group_bits;

    let mut m: u64 = 0;
    let mut t: u8 = 0;
    while t < 64
        invariant
            square < 64,
            t <= 64,
            forall|u: int|
                0 <= u < 64 ==> #[trigger] member(m, u) == (u < t && matters(
                    bishop,
                    square as int,
                    u,
                )),
        decreases 64 - t,
    {
        broadcast use group_bits;

        if is_relevant(bishop, square, t) {
            m = m | bit(t);
        }
        t = t + 1;
    }
    m
}

/// Only pieces that matter stop a slider.
proof fn mask_is_enough(bishop: bool, occ: u64, mask: u64, s: int, t: int)
    requires
        on_board(s),
        on_board(t),
        forall|u: int| 0 <= u < 64 ==> #[trigger] member(mask, u) == matters(bishop, s, u),
    ensures
        reach(bishop, occ & mask, s, t) == reach(bishop, occ, s, t),
{
    if bishop {
        ray_by_mask(true, occ, mask, s, t, 1, 1);
        ray_by_mask(true, occ, mask, s, t, 1, -1);
        ray_by_mask(true, occ, mask, s, t, -1, 1);
        ray_by_mask(true, occ, mask, s, t, -1, -1);
    } else {
        ray_by_mask(false, occ, mask, s, t, 1, 0);
        ray_by_mask(false, occ, mask, s, t, -1, 0);
        ray_by_mask(false, occ, mask, s, t, 0, 1);
        ray_by_mask(false, occ, mask, s, t, 0, -1);
    }
}

proof fn ray_by_mask(bishop: bool, occ: u64, mask: u64, s: int, t: int, df: int, dr: int)
    requires
        on_board(s),
        on_board(t),
        -1 <= df <= 1,
        -1 <= dr <= 1,
        bishop ==> df != 0 && dr != 0,
        !bishop ==> (df == 0) != (dr == 0),
        forall|u: int| 0 <= u < 64 ==> #[trigger] member(mask, u) == matters(bishop, s, u),
    ensures
        slides(occ & mask, s, t, df, dr) == slides(occ, s, t, df, dr),
{
    if on_ray(s, t, df, dr) {
        assert forall|k: int| 1 <= k < distance(s, t) implies member(
            occ & mask,
            #[trigger] along(s, df, dr, k),
        ) == member(occ, along(s, df, dr, k)) by {
            let x = along(s, df, dr, k);
            on_the_way(s, t, df, dr, k);
            has_and(occ, mask, x);
            inner_square(bishop, s, t, df, dr, k);
        }
    }
}

/// A square on the way is one that matters.
proof fn inner_square(bishop: bool, s: int, t: int, df: int, dr: int, k: int)
    requires
        on_board(s),
        on_board(t),
        -1 <= df <= 1,
        -1 <= dr <= 1,
        bishop ==> df != 0 && dr != 0,
        !bishop ==> (df == 0) != (dr == 0),
        on_ray(s, t, df, dr),
        1 <= k < distance(s, t),
    ensures
        matters(bishop, s, along(s, df, dr, k)),
{
    on_the_way(s, t, df, dr, k);
    let x = along(s, df, dr, k);
    assert(file(x) - file(s) == crate::magic::steps(df, k));
    assert(rank(x) - rank(s) == crate::magic::steps(dr, k));
}

// ---- Subsets ----
/// Every square of `x` is one of `m`.
pub open spec fn part_of(x: u64, m: u64) -> bool {
    x & m == x
}

/// The next subset of a mask, in ascending order.
pub open spec fn next_part(x: u64, m: u64) -> u64 {
    (sub_wrapping(x, m)) & m
}

/// The difference of two numbers, as far as it fits in 64 bits.
pub open spec fn sub_wrapping(a: u64, b: u64) -> u64 {
    if a >= b {
        (a - b) as u64
    } else {
        (a - b + 0x1_0000_0000_0000_0000) as u64
    }
}

/// No subset lies between one and the next.
proof fn next_is_next(x: u64, y: u64, m: u64)
    requires
        part_of(x, m),
        part_of(y, m),
        x < y,
    ensures
        x < next_part(x, m) <= y,
        part_of(next_part(x, m), m),
{
    if x < m {
        let d = (x - m + 0x1_0000_0000_0000_0000) as u64;
        next_bits(x, y, m, d);
    } else {
        assert(y & m == y ==> y <= m) by (bit_vector);
    }
}

proof fn next_bits(x: u64, y: u64, m: u64, d: u64)
    by (bit_vector)
    requires
        x & m == x,
        y & m == y,
        x < y,
        x < m,
        d == (x - m + 0x1_0000_0000_0000_0000) as u64,
    ensures
        x < (d & m),
        (d & m) <= y,
        (d & m) & m == d & m,
{
}

/// All subsets of a mask, in ascending order.
pub fn enumerate_subsets(mask: u64) -> (v: Vec<u64>)
    ensures
        v@.len() > 0,
        forall|i: int| 0 <= i < v@.len() ==> part_of(#[trigger] v@[i], mask),
        forall|i: int, j: int| 0 <= i < j < v@.len() ==> #[trigger] v@[i] < #[trigger] v@[j],
        forall|x: u64| #[trigger] part_of(x, mask) ==> v@.contains(x),
{
    let mut v: Vec<u64> = Vec::new();
    let mut s: u64 = 0;
    assert(0u64 & mask == 0) by (bit_vector);
    loop
        invariant
            part_of(s, mask),
            forall|i: int|
                0 <= i < v@.len() ==> part_of(#[trigger] v@[i], mask) && v@[i] < s,
            forall|i: int, j: int| 0 <= i < j < v@.len() ==> #[trigger] v@[i] < #[trigger] v@[j],
            forall|x: u64| #[trigger] part_of(x, mask) && x < s ==> v@.contains(x),
        decreases mask - s,
    {
        let ghost before = v@;
        let ghost at = s;
        v.push(s);
        proof {
            assert forall|x: u64| #[trigger] part_of(x, mask) && x <= at implies v@.contains(x) by {
                if x < at {
                    let i = choose|i: int| 0 <= i < before.len() && before[i] == x;
                    assert(v@[i] == x);
                } else {
                    assert(v@[v@.len() - 1] == x);
                }
            }
            assert(mask & mask == mask) by (bit_vector);
            assert(at & mask == at ==> at <= mask) by (bit_vector);
        }
        s = s.wrapping_sub(mask) & mask;
        proof {
            if at < mask {
                next_is_next(at, mask, mask);
                assert forall|x: u64| #[trigger] part_of(x, mask) && x < s implies v@.contains(
                    x,
                ) by {
                    if at < x {
                        next_is_next(at, x, mask);
                    }
                }
            } else {
                assert(0u64 & mask == 0) by (bit_vector);
                assert(s == 0);
            }
        }
        if s == 0 {
            proof {
                assert forall|x: u64| #[trigger] part_of(x, mask) implies v@.contains(x) by {
                    assert(x & mask == x ==> x <= mask) by (bit_vector);
                }
            }
            return v;
        }
    }
}

// ---- Magic numbers ----
/// The state of the random numbers after one is drawn.
pub open spec fn shuffled(x: u64) -> u64 {
    let a = x ^ (x >> 12);
    let b = a ^ (a << 25);
    b ^ (b >> 27)
}

/// Random numbers for the search of magic numbers.
#[derive(Clone, Copy, PartialEq, Eq, Structural, Debug)]
pub struct MagicRng(pub u64);

impl MagicRng {
    pub fn next_u64(&mut self) -> (n: u64)
        ensures
            final(self).0 == shuffled(old(self).0),
            n == times(shuffled(old(self).0), 0x2545F4914F6CDD1D),
    {
        let a: u64 = self.0 ^ (self.0 >> 12u64);
        let b: u64 = a ^ (a << 25u64);
        self.0 = b ^ (b >> 27u64);
        self.0.wrapping_mul(0x2545F4914F6CDD1D)
    }

    /// A random number with few bits.
    pub fn sparse_u64(&mut self) -> (n: u64)
        ensures
            ({
                let x = shuffled(old(self).0);
                let y = shuffled(x);
                let z = shuffled(y);
                &&& final(self).0 == z
                &&& n == times(x, 0x2545F4914F6CDD1D) & times(y, 0x2545F4914F6CDD1D) & times(
                    z,
                    0x2545F4914F6CDD1D,
                )
            }),
    {
        let a: u64 = self.next_u64();
        let b: u64 = self.next_u64();
        let c: u64 = self.next_u64();
        a & b & c
    }
}

/// The index of a subset in its table.
pub open spec fn index_of(x: u64, magic: u64, shift: u64) -> u64 {
    times(x, magic) >> shift
}

fn index(x: u64, magic: u64, shift: u64) -> (i: u64)
    requires
        shift < 64,
    ensures
        i == index_of(x, magic, shift),
{
    x.wrapping_mul(magic) >> shift
}

proof fn index_bound(v: u64, b: u64)
    by (bit_vector)
    requires
        1 <= b <= 20,
    ensures
        (v >> ((64 - b) as u64)) < (1u64 << b),
        0 < (1u64 << b) <= 0x10_0000,
{
}

/// No two subsets of a mask with different attacks have the same index.
pub open spec fn keeps_apart(bishop: bool, s: int, mask: u64, magic: u64) -> bool {
    let shift = (64 - squares(mask).len()) as u64;
    forall|x: u64, y: u64| #[trigger]
        part_of(x, mask) && #[trigger] part_of(y, mask) && index_of(x, magic, shift) == index_of(
            y,
            magic,
            shift,
        ) ==> reach_set(bishop, x, s) == reach_set(bishop, y, s)
}

/// A number is a magic number: it spreads the mask over the highest bits, and keeps
/// the subsets apart.
pub open spec fn is_magic(bishop: bool, s: int, mask: u64, magic: u64) -> bool {
    squares(times(mask, magic) >> 56u64).len() >= 6 && keeps_apart(bishop, s, mask, magic)
}

/// A subset of a mask has this index.
pub open spec fn lands(x: u64, mask: u64, magic: u64, k: int) -> bool {
    part_of(x, mask) && index_of(x, magic, (64 - squares(mask).len()) as u64) == k
}

/// The table of a magic number: the attacks of the subset with each index, and 0
/// where no subset has the index.
pub open spec fn table_of(bishop: bool, s: int, mask: u64, magic: u64) -> Seq<u64> {
    Seq::new(
        (1u64 << (squares(mask).len() as u64)) as nat,
        |k: int|
            if exists|x: u64| lands(x, mask, magic, k) {
                reach_set(bishop, choose|x: u64| lands(x, mask, magic, k), s)
            } else {
                0
            },
    )
}

/// The state of the random numbers after a sparse one is drawn.
pub open spec fn sparsed(x: u64) -> u64 {
    shuffled(shuffled(shuffled(x)))
}

/// The sparse random number that a state gives.
pub open spec fn sparse_of(x: u64) -> u64 {
    times(shuffled(x), 0x2545F4914F6CDD1D) & times(shuffled(shuffled(x)), 0x2545F4914F6CDD1D)
        & times(sparsed(x), 0x2545F4914F6CDD1D)
}

/// The first magic number among the sparse random numbers, up to a number of tries,
/// and the state of the random numbers afterwards.
pub open spec fn first_magic(bishop: bool, s: int, mask: u64, state: u64, tries: int) -> (
    Option<u64>,
    u64,
)
    decreases tries,
{
    if tries <= 0 {
        (None, state)
    } else if is_magic(bishop, s, mask, sparse_of(state)) {
        (Some(sparse_of(state)), sparsed(state))
    } else {
        first_magic(bishop, s, mask, sparsed(state), tries - 1)
    }
}

/// A table gives the attacks of every subset.
pub open spec fn table_ok(
    table: Seq<u64>,
    offset: int,
    magic: u64,
    shift: u64,
    bishop: bool,
    mask: u64,
    s: int,
) -> bool {
    forall|x: u64| #[trigger]
        part_of(x, mask) ==> offset + index_of(x, magic, shift) < table.len() && is_reach(
            table[offset + index_of(x, magic, shift)],
            bishop,
            x,
            s,
        )
}

/// A slider attacks at least one square.
proof fn reaches_something(bb: u64, bishop: bool, occ: u64, s: int)
    requires
        on_board(s),
        is_reach(bb, bishop, occ, s),
    ensures
        bb != 0,
{
    let up = rank(s) < 7;
    let right = file(s) < 7;
    let dr = if up {
        1int
    } else {
        -1
    };
    let df = if right {
        1int
    } else {
        -1
    };
    let t = if bishop {
        s + 8 * dr + df
    } else {
        s + 8 * dr
    };
    assert(on_board(t));
    if bishop {
        assert(file(t) == file(s) + df && rank(t) == rank(s) + dr);
        assert(distance(s, t) == 1);
        assert(slides(occ, s, t, df, dr));
    } else {
        assert(file(t) == file(s) && rank(t) == rank(s) + dr);
        assert(distance(s, t) == 1);
        assert(slides(occ, s, t, 0, dr));
    }
    assert(member(bb, t));
    crate::bitboard::empty_set(bb);
}

fn slider_attacks(bishop: bool, square: Square, occ: u64) -> (bb: u64)
    requires
        square < 64,
    ensures
        is_reach(bb, bishop, occ, square as int),
{
    if bishop {
        bishop_attacks(square, occ)
    } else {
        rook_attacks(square, occ)
    }
}

/// Two subsets with different attacks have the same index.
pub open spec fn clash(
    subsets: Seq<u64>,
    attacks: Seq<u64>,
    magic: u64,
    shift: u64,
    i: int,
    j: int,
) -> bool {
    &&& 0 <= i < subsets.len()
    &&& 0 <= j < subsets.len()
    &&& index_of(subsets[i], magic, shift) == index_of(subsets[j], magic, shift)
    &&& attacks[i] != attacks[j]
}

/// A subset has this index.
pub open spec fn has_index(subsets: Seq<u64>, magic: u64, shift: u64, i: int, k: int) -> bool {
    0 <= i < subsets.len() && index_of(subsets[i], magic, shift) == k
}

/// A table holds the attacks of each subset at its index, and 0 everywhere else.
pub open spec fn fills(
    t: Seq<u64>,
    subsets: Seq<u64>,
    attacks: Seq<u64>,
    magic: u64,
    bits: u64,
) -> bool {
    let shift = (64 - bits) as u64;
    &&& t.len() == 1u64 << bits
    &&& forall|i: int|
        0 <= i < subsets.len() ==> index_of(#[trigger] subsets[i], magic, shift) < t.len()
            && t[index_of(subsets[i], magic, shift) as int] == attacks[i]
    &&& forall|k: int|
        0 <= k < t.len() && #[trigger] t[k] != 0 ==> exists|i: int| #[trigger]
            has_index(subsets, magic, shift, i, k)
}

/// Fills the table of a magic number. Nothing if two subsets with different
/// attacks have the same index.
fn fill_table(subsets: &Vec<u64>, attacks: &Vec<u64>, magic: u64, bits: u64) -> (r: Option<Vec<u64>>)
    requires
        1 <= bits <= 20,
        subsets@.len() == attacks@.len(),
        forall|i: int| 0 <= i < attacks@.len() ==> #[trigger] attacks@[i] != 0,
    ensures
        match r {
            Some(t) => fills(t@, subsets@, attacks@, magic, bits),
            None => exists|i: int, j: int| #[trigger]
                clash(subsets@, attacks@, magic, (64 - bits) as u64, i, j),
        },
{
    proof {
        index_bound(0, bits);
    }
    let n: usize = (1u64 << bits) as usize;
    let shift: u64 = 64 - bits;
    let mut t: Vec<u64> = vec![0; n];
    let mut i: usize = 0;
    while i < subsets.len()
        invariant
            1 <= bits <= 20,
            shift == 64 - bits,
            n == 1u64 << bits,
            t@.len() == n,
            i <= subsets@.len(),
            subsets@.len() == attacks@.len(),
            forall|k: int| 0 <= k < attacks@.len() ==> #[trigger] attacks@[k] != 0,
            forall|k: int|
                0 <= k < i ==> index_of(#[trigger] subsets@[k], magic, shift) < t@.len()
                    && t@[index_of(subsets@[k], magic, shift) as int] == attacks@[k],
            forall|k: int|
                0 <= k < t@.len() && #[trigger] t@[k] != 0 ==> exists|j: int| #[trigger]
                    has_index(subsets@, magic, shift, j, k) && j < i,
        decreases subsets@.len() - i,
    {
        let x: u64 = index(subsets[i], magic, shift);
        proof {
            index_bound(times(subsets@[i as int], magic), bits);
        }
        let k: usize = x as usize;
        let ghost before = t@;
        if t[k] == 0 {
            t.set(k, attacks[i]);
        } else if t[k] != attacks[i] {
            proof {
                let j = choose|j: int| #[trigger]
                    has_index(subsets@, magic, shift, j, k as int) && j < i;
                assert(t@[index_of(subsets@[j], magic, shift) as int] == attacks@[j]);
                assert(clash(subsets@, attacks@, magic, shift, j, i as int));
            }
            return None;
        }
        proof {
            assert forall|y: int| 0 <= y < t@.len() && #[trigger] t@[y] != 0 implies exists|j: int|
             #[trigger] has_index(subsets@, magic, shift, j, y) && j < i + 1 by {
                if y == k {
                    assert(has_index(subsets@, magic, shift, i as int, y));
                } else {
                    assert(before[y] != 0);
                    let j = choose|j: int| #[trigger]
                        has_index(subsets@, magic, shift, j, y) && j < i;
                    assert(has_index(subsets@, magic, shift, j, y));
                }
            }
            assert forall|j: int| 0 <= j < i + 1 implies index_of(
                #[trigger] subsets@[j],
                magic,
                shift,
            ) < t@.len() && t@[index_of(subsets@[j], magic, shift) as int] == attacks@[j] by {
                if j < i {
                    let y = index_of(subsets@[j], magic, shift);
                    assert(before[y as int] == attacks@[j]);
                    assert(attacks@[j] != 0);
                }
            }
        }
        i = i + 1;
    }
    proof {
        assert forall|k: int| 0 <= k < t@.len() && #[trigger] t@[k] != 0 implies exists|i: int|
         #[trigger] has_index(subsets@, magic, shift, i, k) by {
            let j = choose|j: int| #[trigger] has_index(subsets@, magic, shift, j, k) && j < i;
            assert(has_index(subsets@, magic, shift, j, k));
        }
    }
    Some(t)
}

/// A table that is filled for all subsets of a mask is that of the magic number,
/// which keeps them apart.
proof fn filled_is_table(
    t: Seq<u64>,
    subsets: Seq<u64>,
    attacks: Seq<u64>,
    bishop: bool,
    s: int,
    mask: u64,
    magic: u64,
)
    requires
        1 <= squares(mask).len() <= 20,
        subsets.len() == attacks.len(),
        fills(t, subsets, attacks, magic, squares(mask).len() as u64),
        forall|i: int| 0 <= i < subsets.len() ==> part_of(#[trigger] subsets[i], mask),
        forall|x: u64| #[trigger] part_of(x, mask) ==> subsets.contains(x),
        forall|i: int|
            0 <= i < attacks.len() ==> #[trigger] attacks[i] == reach_set(bishop, subsets[i], s),
    ensures
        keeps_apart(bishop, s, mask, magic),
        t == table_of(bishop, s, mask, magic),
{
    let shift = (64 - squares(mask).len()) as u64;
    assert forall|x: u64, y: u64| #[trigger]
        part_of(x, mask) && #[trigger] part_of(y, mask) && index_of(x, magic, shift) == index_of(
            y,
            magic,
            shift,
        ) implies reach_set(bishop, x, s) == reach_set(bishop, y, s) by {
        let i = choose|i: int| 0 <= i < subsets.len() && subsets[i] == x;
        let j = choose|j: int| 0 <= j < subsets.len() && subsets[j] == y;
        assert(attacks[i] == attacks[j]);
    }
    let u = table_of(bishop, s, mask, magic);
    assert forall|k: int| 0 <= k < t.len() implies #[trigger] t[k] == u[k] by {
        if exists|x: u64| lands(x, mask, magic, k) {
            let x = choose|x: u64| lands(x, mask, magic, k);
            let i = choose|i: int| 0 <= i < subsets.len() && subsets[i] == x;
            assert(subsets[i] == x);
            assert(attacks[i] == reach_set(bishop, x, s));
        } else if t[k] != 0 {
            let i = choose|i: int| #[trigger] has_index(subsets, magic, shift, i, k);
            assert(part_of(subsets[i], mask));
            assert(lands(subsets[i], mask, magic, k));
        }
    }
    assert(t =~= u);
}

/// A magic number and its table.
pub struct Found {
    pub magic: u64,
    pub table: Vec<u64>,
}

/// Searches a magic number for a square, up to a number of tries.
pub fn find_magic(
    square: Square,
    mask: u64,
    bishop: bool,
    rng: &mut MagicRng,
    tries: u64,
) -> (r: Option<Found>)
    requires
        square < 64,
        1 <= squares(mask).len() <= 20,
    ensures
        r matches Some(f) ==> table_ok(
            f.table@,
            0,
            f.magic,
            (64 - squares(mask).len()) as u64,
            bishop,
            mask,
            square as int,
        ),
        ({
            let g = first_magic(bishop, square as int, mask, old(rng).0, tries as int);
            &&& final(rng).0 == g.1
            &&& match r {
                Some(f) => g.0 == Some(f.magic) && f.table@ == table_of(
                    bishop,
                    square as int,
                    mask,
                    f.magic,
                ),
                None => g.0 is None,
            }
        }),
{
    let ghost g = first_magic(bishop, square as int, mask, old(rng).0, tries as int);
    let bits: u64 = popcount(mask) as u64;
    let subsets: Vec<u64> = enumerate_subsets(mask);
    let mut attacks: Vec<u64> = Vec::new();
    let mut i: usize = 0;
    while i < subsets.len()
        invariant
            square < 64,
            i <= subsets@.len(),
            attacks@.len() == i,
            forall|k: int|
                0 <= k < i ==> #[trigger] attacks@[k] != 0 && is_reach(
                    attacks@[k],
                    bishop,
                    subsets@[k],
                    square as int,
                ) && attacks@[k] == reach_set(bishop, subsets@[k], square as int),
        decreases subsets@.len() - i,
    {
        let a: u64 = slider_attacks(bishop, square, subsets[i]);
        proof {
            reaches_something(a, bishop, subsets@[i as int], square as int);
            reach_unique(a, bishop, subsets@[i as int], square as int);
        }
        attacks.push(a);
        i = i + 1;
    }
    let mut left: u64 = tries;
    while left > 0
        invariant
            square < 64,
            bits == squares(mask).len(),
            1 <= bits <= 20,
            subsets@.len() == attacks@.len(),
            forall|i: int| 0 <= i < subsets@.len() ==> part_of(#[trigger] subsets@[i], mask),
            forall|x: u64| #[trigger] part_of(x, mask) ==> subsets@.contains(x),
            forall|k: int|
                0 <= k < attacks@.len() ==> #[trigger] attacks@[k] != 0 && is_reach(
                    attacks@[k],
                    bishop,
                    subsets@[k],
                    square as int,
                ) && attacks@[k] == reach_set(bishop, subsets@[k], square as int),
            g == first_magic(bishop, square as int, mask, old(rng).0, tries as int),
            g == first_magic(bishop, square as int, mask, rng.0, left as int),
        decreases left,
    {
        let ghost state = rng.0;
        left = left - 1;
        let magic: u64 = rng.sparse_u64();
        assert(magic == sparse_of(state) && rng.0 == sparsed(state));
        let top: u64 = mask.wrapping_mul(magic) >> 56u64;
        if popcount(top) >= 6 {
            if let Some(table) = fill_table(&subsets, &attacks, magic, bits) {
                proof {
                    let shift = (64 - bits) as u64;
                    assert forall|x: u64| #[trigger] part_of(x, mask) implies 0 + index_of(
                        x,
                        magic,
                        shift,
                    ) < table@.len() && is_reach(
                        table@[0 + index_of(x, magic, shift)],
                        bishop,
                        x,
                        square as int,
                    ) by {
                        assert(subsets@.contains(x));
                        let k = choose|k: int| 0 <= k < subsets@.len() && subsets@[k] == x;
                        assert(subsets@[k] == x);
                        assert(attacks@[k] != 0);
                    }
                    filled_is_table(
                        table@,
                        subsets@,
                        attacks@,
                        bishop,
                        square as int,
                        mask,
                        magic,
                    );
                }
                return Some(Found { magic, table });
            }
            proof {
                let shift = (64 - bits) as u64;
                let c = choose|i: int, j: int| #[trigger]
                    clash(subsets@, attacks@, magic, shift, i, j);
                assert(part_of(subsets@[c.0], mask) && part_of(subsets@[c.1], mask));
                assert(attacks@[c.0] != attacks@[c.1]);
                assert(!keeps_apart(bishop, square as int, mask, magic));
            }
        }
    }
    None
}

// ---- Tables ----
/// How the attacks from a square are looked up.
#[derive(Clone, Copy, PartialEq, Eq, Structural, Debug)]
pub struct MagicEntry {
    pub mask: u64,
    pub magic: u64,
    pub shift: u64,
    pub offset: usize,
}

/// The tables of all squares.
pub struct MagicTables {
    pub bishops: Vec<MagicEntry>,
    pub rooks: Vec<MagicEntry>,
    pub table: Vec<u64>,
}

/// An entry serves its square.
pub open spec fn entry_ok(e: MagicEntry, table: Seq<u64>, bishop: bool, s: int) -> bool {
    &&& e.shift < 64
    &&& forall|t: int| 0 <= t < 64 ==> #[trigger] member(e.mask, t) == matters(bishop, s, t)
    &&& table_ok(table, e.offset as int, e.magic, e.shift, bishop, e.mask, s)
}

/// The entries serve the first squares.
pub open spec fn entries_ok(v: Seq<MagicEntry>, table: Seq<u64>, bishop: bool) -> bool {
    forall|s: int| 0 <= s < v.len() ==> entry_ok(#[trigger] v[s], table, bishop, s)
}

/// A longer table serves the same entries.
proof fn entries_stay(v: Seq<MagicEntry>, a: Seq<u64>, b: Seq<u64>, bishop: bool)
    requires
        entries_ok(v, a, bishop),
        a.len() <= b.len(),
        forall|i: int| 0 <= i < a.len() ==> #[trigger] a[i] == b[i],
    ensures
        entries_ok(v, b, bishop),
{
    assert forall|s: int| 0 <= s < v.len() implies entry_ok(#[trigger] v[s], b, bishop, s) by {
        let e = v[s];
        assert(entry_ok(e, a, bishop, s));
        assert forall|x: u64| #[trigger] part_of(x, e.mask) implies e.offset + index_of(
            x,
            e.magic,
            e.shift,
        ) < b.len() && is_reach(
            b[e.offset + index_of(x, e.magic, e.shift)],
            bishop,
            x,
            s,
        ) by {
            let i = e.offset + index_of(x, e.magic, e.shift);
            assert(a[i] == b[i]);
        }
    }
}

/// What has been built for the first squares: the entries, the table, the state of
/// the random numbers, and whether every square has got its magic number.
#[verifier::ext_equal]
pub struct Built {
    pub entries: Seq<MagicEntry>,
    pub table: Seq<u64>,
    pub state: u64,
    pub complete: bool,
}

/// Nothing built yet, with a table and a state to go on from.
pub open spec fn unbuilt(table: Seq<u64>, state: u64) -> Built {
    Built { entries: Seq::empty(), table, state, complete: true }
}

/// What has been built after one more square.
pub open spec fn built_next(b: Built, bishop: bool, s: int, tries: int) -> Built {
    let mask = mask_at(bishop, s);
    let g = first_magic(bishop, s, mask, b.state, tries);
    match g.0 {
        Some(magic) => Built {
            entries: b.entries.push(
                MagicEntry {
                    mask,
                    magic,
                    shift: (64 - squares(mask).len()) as u64,
                    offset: b.table.len() as usize,
                },
            ),
            table: b.table + table_of(bishop, s, mask, magic),
            state: g.1,
            complete: true,
        },
        None => Built { state: g.1, complete: false, ..b },
    }
}

/// What is built for the first `n` squares. The first square without a magic number
/// is the last one.
pub open spec fn built(start: Built, bishop: bool, n: int, tries: int) -> Built
    decreases n,
{
    if n <= 0 {
        start
    } else {
        let b = built(start, bishop, n - 1, tries);
        if b.complete {
            built_next(b, bishop, n - 1, tries)
        } else {
            b
        }
    }
}

/// Nothing is built after a square without a magic number.
proof fn incomplete_stays(start: Built, bishop: bool, n: int, m: int, tries: int)
    requires
        0 <= n <= m,
        !built(start, bishop, n, tries).complete,
    ensures
        built(start, bishop, m, tries) == built(start, bishop, n, tries),
    decreases m,
{
    if n < m {
        incomplete_stays(start, bishop, n, m - 1, tries);
    }
}

/// Adds the entries of all squares, and their tables to the table. Nothing if a
/// square has no magic number within the tries.
fn add_entries(bishop: bool, rng: &mut MagicRng, table: &mut Vec<u64>, tries: u64) -> (r: Option<
    Vec<MagicEntry>,
>)
    ensures
        final(table)@.len() >= old(table)@.len(),
        forall|i: int| 0 <= i < old(table)@.len() ==> #[trigger] final(table)@[i] == old(table)@[i],
        r matches Some(v) ==> v@.len() == 64 && entries_ok(v@, final(table)@, bishop),
        ({
            let b = built(unbuilt(old(table)@, old(rng).0), bishop, 64, tries as int);
            &&& final(table)@ == b.table
            &&& final(rng).0 == b.state
            &&& match r {
                Some(v) => b.complete && v@ == b.entries,
                None => !b.complete,
            }
        }),
{
    let ghost start = unbuilt(table@, rng.0);
    let mut v: Vec<MagicEntry> = Vec::new();
    let mut s: u8 = 0;
    while s < 64
        invariant
            s <= 64,
            v@.len() == s,
            table@.len() >= old(table)@.len(),
            forall|i: int| 0 <= i < old(table)@.len() ==> #[trigger] table@[i] == old(table)@[i],
            entries_ok(v@, table@, bishop),
            start == unbuilt(old(table)@, old(rng).0),
            built(start, bishop, s as int, tries as int) == (Built {
                entries: v@,
                table: table@,
                state: rng.0,
                complete: true,
            }),
        decreases 64 - s,
    {
        let ghost b0 = built(start, bishop, s as int, tries as int);
        let mask: u64 = slider_mask(bishop, s);
        proof {
            assert(is_mask(mask, bishop, s as int));
            mask_unique(mask, bishop, s as int);
            mask_bounds(mask, bishop, s as int);
            assert(built(start, bishop, s + 1, tries as int) == built_next(
                b0,
                bishop,
                s as int,
                tries as int,
            ));
        }
        let found: Found = match find_magic(s, mask, bishop, rng, tries) {
            Some(f) => f,
            None => {
                proof {
                    incomplete_stays(start, bishop, s + 1, 64, tries as int);
                }
                return None;
            },
        };
        let offset: usize = table.len();
        let shift: u64 = 64 - popcount(mask) as u64;
        let ghost before = table@;
        let mut i: usize = 0;
        while i < found.table.len()
            invariant
                i <= found.table@.len(),
                table@ == before + found.table@.take(i as int),
            decreases found.table@.len() - i,
        {
            table.push(found.table[i]);
            i = i + 1;
            assert(table@ =~= before + found.table@.take(i as int));
        }
        proof {
            assert(found.table@.take(i as int) =~= found.table@);
            entries_stay(v@, before, table@, bishop);
        }
        let e: MagicEntry = MagicEntry { mask, magic: found.magic, shift, offset };
        v.push(e);
        proof {
            let t = table@;
            assert forall|x: u64| #[trigger] part_of(x, mask) implies offset + index_of(
                x,
                e.magic,
                shift,
            ) < t.len() && is_reach(
                t[offset + index_of(x, e.magic, shift)],
                bishop,
                x,
                s as int,
            ) by {
                assert(0 + index_of(x, e.magic, shift) < found.table@.len());
                assert(t[offset + index_of(x, e.magic, shift)] == found.table@[0 + index_of(
                    x,
                    e.magic,
                    shift,
                )]);
            }
            assert(entry_ok(e, t, bishop, s as int));
            assert(built(start, bishop, s + 1, tries as int) =~= (Built {
                entries: v@,
                table: table@,
                state: rng.0,
                complete: true,
            }));
        }
        s = s + 1;
    }
    Some(v)
}

impl MagicTables {
    pub open spec fn wf(&self) -> bool {
        &&& self.bishops@.len() == 64
        &&& self.rooks@.len() == 64
        &&& entries_ok(self.bishops@, self.table@, true)
        &&& entries_ok(self.rooks@, self.table@, false)
    }

    /// Builds the tables, first those of the bishops, then those of the rooks.
    /// Nothing if some square has no magic number within a number of tries.
    pub fn init(tries: u64) -> (r: Option<MagicTables>)
        ensures
            r matches Some(t) ==> t.wf(),
            ({
                let b = built(unbuilt(Seq::empty(), 0xDEADBEEF12345678), true, 64, tries as int);
                let c = built(unbuilt(b.table, b.state), false, 64, tries as int);
                match r {
                    Some(t) => b.complete && c.complete && t.bishops@ == b.entries && t.rooks@
                        == c.entries && t.table@ == c.table,
                    None => !b.complete || !c.complete,
                }
            }),
    {
        let mut rng: MagicRng = MagicRng(0xDEADBEEF12345678);
        let mut table: Vec<u64> = Vec::new();
        assert(table@ =~= Seq::empty());
        let bishops: Vec<MagicEntry> = match add_entries(true, &mut rng, &mut table, tries) {
            Some(v) => v,
            None => {
                return None;
            },
        };
        let ghost before = table@;
        let rooks: Vec<MagicEntry> = match add_entries(false, &mut rng, &mut table, tries) {
            Some(v) => v,
            None => {
                return None;
            },
        };
        proof {
            entries_stay(bishops@, before, table@, true);
        }
        Some(MagicTables { bishops, rooks, table })
    }

    fn look_up(&self, e: &MagicEntry, occ: u64, Ghost(bishop): Ghost<bool>, Ghost(s): Ghost<int>) -> (bb:
        u64)
        requires
            on_board(s),
            entry_ok(*e, self.table@, bishop, s),
        ensures
            is_reach(bb, bishop, occ, s),
    {
        let m: u64 = e.mask;
        let x: u64 = occ & m;
        proof {
            assert((occ & m) & m == occ & m) by (bit_vector);
            assert(part_of(x, m));
        }
        let n: usize = self.table.len();
        let i: u64 = index(x, e.magic, e.shift);
        assert(e.offset + i < n);
        let bb: u64 = self.table[e.offset + i as usize];
        proof {
            assert forall|t: int| 0 <= t < 64 implies #[trigger] member(bb, t) == reach(
                bishop,
                occ,
                s,
                t,
            ) by {
                mask_is_enough(bishop, occ, m, s, t);
            }
        }
        bb
    }

    /// Bishop attacks by the tables.
    pub fn bishop_attacks(&self, sq: Square, occ: u64) -> (bb: u64)
        requires
            self.wf(),
            sq < 64,
        ensures
            forall|t: int|
                0 <= t < 64 ==> #[trigger] member(bb, t) == bishop_reach(occ, sq as int, t),
    {
        assert(entry_ok(self.bishops@[sq as int], self.table@, true, sq as int));
        self.look_up(&self.bishops[sq as usize], occ, Ghost(true), Ghost(sq as int))
    }

    /// Rook attacks by the tables.
    pub fn rook_attacks(&self, sq: Square, occ: u64) -> (bb: u64)
        requires
            self.wf(),
            sq < 64,
        ensures
            forall|t: int| 0 <= t < 64 ==> #[trigger] member(bb, t) == rook_reach(occ, sq as int, t),
    {
        assert(entry_ok(self.rooks@[sq as int], self.table@, false, sq as int));
        self.look_up(&self.rooks[sq as usize], occ, Ghost(false), Ghost(sq as int))
    }
}

/// The tables and the rays give the same set.
pub proof fn tables_agree_with_rays(a: u64, b: u64, bishop: bool, occ: u64, s: int)
    requires
        is_reach(a, bishop, occ, s),
        is_reach(b, bishop, occ, s),
    ensures
        a == b,
{
    same_squares(a, b);
}

} // verus!
