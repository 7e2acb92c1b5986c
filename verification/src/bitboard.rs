//! Bitboards: sets of squares in the bits of a `u64`.

use crate::types::{file, Square};
use vstd::prelude::*;
use vstd::std_specs::bits::{axiom_u64_trailing_zeros, u64_trailing_zeros};

verus! {

pub const FILE_A: u64 = 0x0101010101010101;

pub const FILE_B: u64 = 0x0202020202020202;

pub const FILE_G: u64 = 0x4040404040404040;

pub const FILE_H: u64 = 0x8080808080808080;

pub const RANK_1: u64 = 0x00000000000000FF;

pub const RANK_3: u64 = 0x0000000000FF0000;

pub const RANK_6: u64 = 0x0000FF0000000000;

pub const RANK_8: u64 = 0xFF00000000000000;

pub const NOT_FILE_A: u64 = 0xFEFEFEFEFEFEFEFE;

pub const NOT_FILE_H: u64 = 0x7F7F7F7F7F7F7F7F;

pub const NOT_FILE_AB: u64 = 0xFCFCFCFCFCFCFCFC;

pub const NOT_FILE_GH: u64 = 0x3F3F3F3F3F3F3F3F;

/// Square `s` belongs to the set `bb`.
#[verifier::opaque]
pub open spec fn member(bb: u64, s: int) -> bool {
    (bb >> (s as u64)) & 1u64 == 1u64
}

/// The set that holds only `s`.
pub open spec fn bit_of(s: int) -> u64 {
    1u64 << (s as u64)
}

/// The lowest square of a set; 64 for the empty set.
pub open spec fn lowest(bb: u64) -> int {
    u64_trailing_zeros(bb) as int
}

/// A set without its lowest square.
pub open spec fn rest(bb: u64) -> u64 {
    bb & ((bb - 1) as u64)
}

/// The squares of a set in ascending order.
pub open spec fn squares(bb: u64) -> Seq<int>
    decreases bb,
{
    if bb == 0 {
        Seq::empty()
    } else {
        proof {
            rest_decreases(bb);
        }
        seq![lowest(bb)] + squares(rest(bb))
    }
}

/// Taking the lowest square away makes the number smaller.
pub proof fn rest_decreases(bb: u64)
    requires
        bb != 0,
    ensures
        rest(bb) < bb,
{
    assert(bb != 0 ==> bb & ((bb - 1) as u64) < bb) by (bit_vector);
}

pub broadcast proof fn has_and(a: u64, b: u64, s: int)
    requires
        0 <= s < 64,
    ensures
        #[trigger] member(a & b, s) == (member(a, s) && member(b, s)),
{
    reveal(member);
    let t = s as u64;
    bit_ops(a, b, t);
}

pub broadcast proof fn has_or(a: u64, b: u64, s: int)
    requires
        0 <= s < 64,
    ensures
        #[trigger] member(a | b, s) == (member(a, s) || member(b, s)),
{
    reveal(member);
    let t = s as u64;
    bit_ops(a, b, t);
}

pub broadcast proof fn has_xor(a: u64, b: u64, s: int)
    requires
        0 <= s < 64,
    ensures
        #[trigger] member(a ^ b, s) == (member(a, s) != member(b, s)),
{
    reveal(member);
    let t = s as u64;
    bit_ops(a, b, t);
}

pub broadcast proof fn has_not(a: u64, s: int)
    requires
        0 <= s < 64,
    ensures
        #[trigger] member(!a, s) == !member(a, s),
{
    reveal(member);
    let t = s as u64;
    bit_ops(a, a, t);
}

proof fn bit_ops(a: u64, b: u64, t: u64)
    by (bit_vector)
    requires
        t < 64,
    ensures
        ((a & b) >> t) & 1 == 1 <==> ((a >> t) & 1 == 1 && (b >> t) & 1 == 1),
        ((a | b) >> t) & 1 == 1 <==> ((a >> t) & 1 == 1 || (b >> t) & 1 == 1),
        ((a ^ b) >> t) & 1 == 1 <==> ((a >> t) & 1 == 1) != ((b >> t) & 1 == 1),
        ((!a) >> t) & 1 == 1 <==> !((a >> t) & 1 == 1),
        (0u64 >> t) & 1 == 0,
{
}

pub broadcast proof fn has_zero(s: int)
    requires
        0 <= s < 64,
    ensures
        !#[trigger] member(0, s),
{
    reveal(member);
    bit_ops(0, 0, s as u64);
}

pub broadcast proof fn has_bit(t: int, s: int)
    requires
        0 <= s < 64,
        0 <= t < 64,
    ensures
        #[trigger] member(bit_of(t), s) == (s == t),
{
    reveal(member);
    let a = t as u64;
    let b = s as u64;
    assert(a < 64 && b < 64 ==> (((1u64 << a) >> b) & 1 == 1 <==> a == b)) by (bit_vector);
}

pub broadcast proof fn has_shl(bb: u64, k: u64, s: int)
    requires
        0 <= s < 64,
        k < 64,
    ensures
        #[trigger] member(bb << k, s) == (s >= k && member(bb, s - k)),
{
    reveal(member);
    let t = s as u64;
    let d = (s - k) as u64;
    assert(t < 64 && k < 64 ==> ((((bb << k) >> t) & 1 == 1) <==> (t >= k && (bb >> ((t
        - k) as u64)) & 1 == 1))) by (bit_vector);
}

pub broadcast proof fn has_shr(bb: u64, k: u64, s: int)
    requires
        0 <= s < 64,
        k < 64,
    ensures
        #[trigger] member(bb >> k, s) == (s + k < 64 && member(bb, s + k)),
{
    reveal(member);
    let t = s as u64;
    assert(t < 64 && k < 64 ==> ((((bb >> k) >> t) & 1 == 1) <==> (t + k < 64 && (bb >> ((t
        + k) as u64)) & 1 == 1))) by (bit_vector);
}

/// What the constant sets hold.
pub broadcast proof fn has_constants(s: int)
    requires
        0 <= s < 64,
    ensures
        #![trigger member(NOT_FILE_A, s)]
        #![trigger member(NOT_FILE_H, s)]
        #![trigger member(NOT_FILE_AB, s)]
        #![trigger member(NOT_FILE_GH, s)]
        #![trigger member(FILE_A, s)]
        #![trigger member(FILE_H, s)]
        #![trigger member(RANK_1, s)]
        #![trigger member(RANK_8, s)]
        #![trigger member(RANK_3, s)]
        #![trigger member(RANK_6, s)]
        member(NOT_FILE_A, s) == (s % 8 != 0),
        member(NOT_FILE_H, s) == (s % 8 != 7),
        member(NOT_FILE_AB, s) == (s % 8 >= 2),
        member(NOT_FILE_GH, s) == (s % 8 <= 5),
        member(FILE_A, s) == (s % 8 == 0),
        member(FILE_H, s) == (s % 8 == 7),
        member(RANK_1, s) == (s / 8 == 0),
        member(RANK_8, s) == (s / 8 == 7),
        member(RANK_3, s) == (s / 8 == 2),
        member(RANK_6, s) == (s / 8 == 5),
{
    reveal(member);
    bit_constants(s as u64);
}

proof fn bit_constants(s: u64)
    by (bit_vector)
    requires
        s < 64,
    ensures
        (NOT_FILE_A >> s) & 1 == 1 <==> s % 8 != 0,
        (NOT_FILE_H >> s) & 1 == 1 <==> s % 8 != 7,
        (NOT_FILE_AB >> s) & 1 == 1 <==> s % 8 >= 2,
        (NOT_FILE_GH >> s) & 1 == 1 <==> s % 8 <= 5,
        (FILE_A >> s) & 1 == 1 <==> s % 8 == 0,
        (FILE_H >> s) & 1 == 1 <==> s % 8 == 7,
        (RANK_1 >> s) & 1 == 1 <==> s / 8 == 0,
        (RANK_8 >> s) & 1 == 1 <==> s / 8 == 7,
        (RANK_3 >> s) & 1 == 1 <==> s / 8 == 2,
        (RANK_6 >> s) & 1 == 1 <==> s / 8 == 5,
{
}

pub broadcast group group_bits {
    has_and,
    has_or,
    has_xor,
    has_not,
    has_zero,
    has_bit,
    has_shl,
    has_shr,
    has_constants,
}

/// The lowest square of a set belongs to it and no lower square does.
pub proof fn lowest_facts(bb: u64)
    ensures
        0 <= lowest(bb) <= 64,
        bb == 0 <==> lowest(bb) == 64,
        bb != 0 ==> member(bb, lowest(bb)),
        forall|j: int| 0 <= j < lowest(bb) ==> !#[trigger] member(bb, j),
{
    reveal(member);
    axiom_u64_trailing_zeros(bb);
    assert forall|j: int| 0 <= j < lowest(bb) implies !#[trigger] member(bb, j) by {
        let k = j as u64;
        assert((bb >> k) & 1u64 == 0u64);
    }
}

/// Sets with the same squares are equal.
pub proof fn same_squares(a: u64, b: u64)
    requires
        forall|s: int| 0 <= s < 64 ==> #[trigger] member(a, s) == member(b, s),
    ensures
        a == b,
{
    let x = a ^ b;
    if x != 0 {
        lowest_facts(x);
        has_xor(a, b, lowest(x));
    }
    assert(a ^ b == 0 ==> a == b) by (bit_vector);
}

/// A set is empty exactly if no square belongs to it.
pub proof fn empty_set(bb: u64)
    ensures
        (bb == 0) == (forall|s: int| 0 <= s < 64 ==> !#[trigger] member(bb, s)),
{
    lowest_facts(bb);
    if bb == 0 {
        assert forall|s: int| 0 <= s < 64 implies !#[trigger] member(bb, s) by {
            has_zero(s);
        }
    }
}

/// `rest` takes away exactly the lowest square.
pub proof fn rest_facts(bb: u64)
    requires
        bb != 0,
    ensures
        rest(bb) < bb,
        forall|s: int|
            0 <= s < 64 ==> #[trigger] member(rest(bb), s) == (member(bb, s) && s != lowest(bb)),
{
    lowest_facts(bb);
    rest_decreases(bb);
    let z = lowest(bb) as u64;
    assert((bb >> z) & 1 == 1) by {
        reveal(member);
    }
    assert(z > 0 ==> bb << ((64 - z) as u64) == 0) by {
        if z > 0 {
            let k = (64 - z) as u64;
            assert forall|s: int| 0 <= s < 64 implies #[trigger] member(bb << k, s) == member(0, s) by {
                has_shl(bb, k, s);
                has_zero(s);
            }
            same_squares(bb << k, 0);
        }
    }
    assert(bb & ((bb - 1) as u64) == bb ^ (1u64 << z)) by (bit_vector)
        requires
            z < 64,
            bb != 0,
            (bb >> z) & 1 == 1,
            z > 0 ==> bb << ((64 - z) as u64) == 0,
    ;
    assert forall|s: int| 0 <= s < 64 implies #[trigger] member(rest(bb), s) == (member(bb, s) && s
        != lowest(bb)) by {
        has_xor(bb, bit_of(lowest(bb)), s);
        has_bit(lowest(bb), s);
    }
}

/// The list of a set's squares holds exactly its squares, in ascending order.
pub proof fn squares_facts(bb: u64)
    ensures
        forall|i: int|
            0 <= i < squares(bb).len() ==> 0 <= #[trigger] squares(bb)[i] < 64 && member(
                bb,
                squares(bb)[i],
            ),
        forall|i: int, j: int|
            0 <= i < j < squares(bb).len() ==> squares(bb)[i] < squares(bb)[j],
        forall|s: int| 0 <= s < 64 && #[trigger] member(bb, s) ==> squares(bb).contains(s),
    decreases bb,
{
    if bb == 0 {
        empty_set(bb);
    } else {
        rest_facts(bb);
        lowest_facts(bb);
        squares_facts(rest(bb));
        let tl = squares(rest(bb));
        let l = squares(bb);
        assert forall|i: int| 0 <= i < l.len() implies 0 <= #[trigger] l[i] < 64 && member(
            bb,
            l[i],
        ) by {
            if i > 0 {
                assert(l[i] == tl[i - 1]);
                assert(member(rest(bb), tl[i - 1]));
            }
        }
        assert forall|i: int, j: int| 0 <= i < j < l.len() implies l[i] < l[j] by {
            assert(l[j] == tl[j - 1]);
            assert(member(rest(bb), tl[j - 1]));
            if i > 0 {
                assert(l[i] == tl[i - 1]);
            } else {
                assert(!(tl[j - 1] < lowest(bb)));
            }
        }
        assert forall|s: int| 0 <= s < 64 && #[trigger] member(bb, s) implies l.contains(s) by {
            if s == lowest(bb) {
                assert(l[0] == s);
            } else {
                assert(member(rest(bb), s));
                assert(tl.contains(s));
                let k = choose|k: int| 0 <= k < tl.len() && tl[k] == s;
                assert(l[k + 1] == s);
            }
        }
    }
}

/// A set has at most 64 squares.
pub proof fn squares_at_most_64(bb: u64)
    ensures
        squares(bb).len() <= 64,
{
    squares_facts(bb);
    let l = squares(bb);
    if l.len() > 64 {
        ascending_bound(l, 64);
    }
}

proof fn ascending_bound(l: Seq<int>, n: int)
    requires
        0 <= n < l.len(),
        forall|i: int| 0 <= i < l.len() ==> 0 <= #[trigger] l[i],
        forall|i: int, j: int| 0 <= i < j < l.len() ==> l[i] < l[j],
    ensures
        l[n] >= n,
    decreases n,
{
    if n > 0 {
        ascending_bound(l, n - 1);
        assert(l[n - 1] < l[n]);
    }
}

pub fn bit(sq: Square) -> (bb: u64)
    requires
        sq < 64,
    ensures
        bb == bit_of(sq as int),
{
    1u64 << sq
}

pub fn lsb(bb: u64) -> (s: Square)
    ensures
        s == lowest(bb),
        s <= 64,
        bb != 0 ==> s < 64 && member(bb, s as int),
{
    proof {
        lowest_facts(bb);
    }
    bb.trailing_zeros() as u8
}

pub fn pop_lsb(bb: &mut u64) -> (s: Square)
    requires
        *old(bb) != 0,
    ensures
        s == lowest(*old(bb)),
        s < 64,
        member(*old(bb), s as int),
        *final(bb) == rest(*old(bb)),
        *final(bb) < *old(bb),
{
    let s: Square = lsb(*bb);
    proof {
        rest_facts(*bb);
    }
    *bb = *bb & (*bb - 1);
    s
}

/// The number of squares of a set.
pub fn popcount(bb: u64) -> (n: u32)
    ensures
        n == squares(bb).len(),
        n <= 64,
{
    proof {
        squares_at_most_64(bb);
    }
    let mut b: u64 = bb;
    let mut n: u32 = 0;
    while b != 0
        invariant
            n + squares(b).len() == squares(bb).len(),
            squares(bb).len() <= 64,
        decreases b,
    {
        pop_lsb(&mut b);
        n = n + 1;
    }
    n
}

pub fn shift_north(bb: u64) -> (r: u64)
    ensures
        r == bb << 8,
        forall|s: int| 0 <= s < 64 ==> #[trigger] member(r, s) == (s >= 8 && member(bb, s - 8)),
{
    broadcast use group_bits;

    bb << 8
}

pub fn shift_south(bb: u64) -> (r: u64)
    ensures
        r == bb >> 8,
        forall|s: int| 0 <= s < 64 ==> #[trigger] member(r, s) == (s < 56 && member(bb, s + 8)),
{
    broadcast use group_bits;

    bb >> 8
}

pub fn shift_east(bb: u64) -> (r: u64)
    ensures
        r == (bb << 1) & NOT_FILE_A,
        forall|s: int|
            0 <= s < 64 ==> #[trigger] member(r, s) == (file(s) != 0 && member(bb, s - 1)),
{
    broadcast use group_bits;

    (bb << 1) & NOT_FILE_A
}

pub fn shift_west(bb: u64) -> (r: u64)
    ensures
        r == (bb >> 1) & NOT_FILE_H,
        forall|s: int|
            0 <= s < 64 ==> #[trigger] member(r, s) == (file(s) != 7 && member(bb, s + 1)),
{
    broadcast use group_bits;

    (bb >> 1) & NOT_FILE_H
}

pub fn shift_ne(bb: u64) -> (r: u64)
    ensures
        r == (bb << 9) & NOT_FILE_A,
        forall|s: int|
            0 <= s < 64 ==> #[trigger] member(r, s) == (s >= 8 && file(s) != 0 && member(bb, s - 9)),
{
    broadcast use group_bits;

    (bb << 9) & NOT_FILE_A
}

pub fn shift_nw(bb: u64) -> (r: u64)
    ensures
        r == (bb << 7) & NOT_FILE_H,
        forall|s: int|
            0 <= s < 64 ==> #[trigger] member(r, s) == (s >= 8 && file(s) != 7 && member(bb, s - 7)),
{
    broadcast use group_bits;

    (bb << 7) & NOT_FILE_H
}

pub fn shift_se(bb: u64) -> (r: u64)
    ensures
        r == (bb >> 7) & NOT_FILE_A,
        forall|s: int|
            0 <= s < 64 ==> #[trigger] member(r, s) == (s < 56 && file(s) != 0 && member(bb, s + 7)),
{
    broadcast use group_bits;

    (bb >> 7) & NOT_FILE_A
}

pub fn shift_sw(bb: u64) -> (r: u64)
    ensures
        r == (bb >> 9) & NOT_FILE_H,
        forall|s: int|
            0 <= s < 64 ==> #[trigger] member(r, s) == (s < 56 && file(s) != 7 && member(bb, s + 9)),
{
    broadcast use group_bits;

    (bb >> 9) & NOT_FILE_H
}

/// Walks over the squares of a set in ascending order.
pub struct BitIter(pub u64);

impl BitIter {
    pub fn next(&mut self) -> (r: Option<Square>)
        ensures
            match r {
                None => old(self).0 == 0 && final(self).0 == 0,
                Some(s) => old(self).0 != 0 && s == lowest(old(self).0) && final(self).0 == rest(
                    old(self).0,
                ),
            },
    {
        if self.0 == 0 {
            None
        } else {
            Some(pop_lsb(&mut self.0))
        }
    }
}

/// A square belongs to a set: the test that the set makes of a single bit.
pub fn contains(bb: u64, s: Square) -> (b: bool)
    requires
        s < 64,
    ensures
        b == member(bb, s as int),
{
    proof {
        reveal(member);
    }
    (bb >> (s as u64)) & 1 == 1
}

/// A board of bits, rank 8 first: each rank is eight marks, "1 " for a square
/// of the set and ". " for another, and a line end; one more line end closes it.
pub open spec fn board_picture(bb: u64, done: int) -> Seq<char>
    decreases done,
{
    if done <= 0 {
        Seq::empty()
    } else {
        let i = done - 1;
        let s = (7 - i / 8) * 8 + i % 8;
        let before = board_picture(bb, i);
        let mark = before.push(
            if member(bb, s) {
                '1'
            } else {
                '.'
            },
        ).push(' ');
        if i % 8 == 7 {
            mark.push('\n')
        } else {
            mark
        }
    }
}

/// The text that shows a bitboard.
pub fn print_bb(bb: u64) -> (t: String)
    ensures
        t@ == board_picture(bb, 64).push('\n'),
{
    let mut t: String = String::new();
    let mut i: u8 = 0;
    while i < 64
        invariant
            i <= 64,
            t@ == board_picture(bb, i as int),
        decreases 64 - i,
    {
        let s: Square = (7 - i / 8) * 8 + i % 8;
        if contains(bb, s) {
            t.push('1');
        } else {
            t.push('.');
        }
        t.push(' ');
        if i % 8 == 7 {
            t.push('\n');
        }
        i = i + 1;
    }
    t.push('\n');
    t
}

} // verus!
