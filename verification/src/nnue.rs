//! The neural network: features, accumulators and the forward pass.
//!
//! Each perspective sums the weights of its features into an accumulator of
//! `hidden_size` 16-bit lanes. The output layers read both accumulators through
//! a squared clipped activation.

use crate::attacks::{attacks_by_color, side_attacks_from};
use crate::bitboard::{contains, member};
use crate::board::{behind, codes_bounded, fits, home, made, moved, Position};
use crate::num::{clamped, tdiv};
use crate::types::{
    color_of, file, file_of, mirror_sq, mirrored, on_board, piece_code, piece_color, piece_type,
    rank, rank_of, type_of, Color, Move, PieceType, Square, UndoInfo, EMPTY,
};
use std::sync::Arc;
use vstd::prelude::*;

verus! {

/// Features of a perspective per king bucket: colours, piece types and squares.
pub const INPUT_SIZE: usize = 768;

/// The largest hidden size.
pub const MAX_HIDDEN: usize = 1024;

/// The size of the second layer, where a network has one.
pub const L2_SIZE: usize = 16;

/// The largest number of king buckets.
pub const MAX_BUCKETS: usize = 16;

/// The number of output buckets, where a network has them.
pub const NUM_OUTPUT_BUCKETS: usize = 8;

/// The output bucket of a piece count: every four pieces beyond two.
pub fn output_bucket_for_occupied(occupied_count: u32) -> (b: usize)
    ensures
        b == (if occupied_count < 2 {
            0
        } else {
            (occupied_count - 2) / 4
        }),
{
    if occupied_count < 2 {
        0
    } else {
        ((occupied_count - 2) / 4) as usize
    }
}

// ---- Features ----
/// The king bucket of a square. The board is mirrored at the line between the
/// files d and e.
pub open spec fn bucket(s: int) -> int {
    (if rank(s) < 2 {
        0int
    } else {
        2int
    }) + (if file(s) == 2 || file(s) == 3 || file(s) == 4 || file(s) == 5 {
        1int
    } else {
        0int
    })
}

/// A king on the files e to h mirrors the features.
pub open spec fn flips(s: int) -> bool {
    file(s) > 3
}

/// The index of the feature that a piece stands on a square, within a bucket.
pub open spec fn feature(c: Color, t: int, s: int, perspective: Color) -> int {
    (if c == perspective {
        0int
    } else {
        384int
    }) + t * 64 + (if perspective == Color::White {
        s
    } else {
        mirrored(s)
    })
}

/// The index of the feature that a side attacks a square, within a bucket.
pub open spec fn threat_feature(c: Color, s: int, perspective: Color) -> int {
    768 + (if c == perspective {
        0int
    } else {
        64int
    }) + (if perspective == Color::White {
        s
    } else {
        mirrored(s)
    })
}

/// The index with its three file bits turned over.
pub open spec fn mirrored_file(i: int) -> int {
    i - i % 8 + (7 - i % 8)
}

/// Where the features of a perspective start, and 7 if they are mirrored.
pub open spec fn placed(base: int, offset: int, flip: int) -> int {
    offset + (if flip == 7 {
        mirrored_file(base)
    } else {
        base
    })
}

proof fn xor_seven(i: u64)
    requires
        i < 1024,
    ensures
        i ^ 7 == mirrored_file(i as int),
        i ^ 0 == i,
{
    assert(i < 1024 ==> i ^ 7 == i - i % 8 + (7 - i % 8)) by (bit_vector);
    assert(i ^ 0 == i) by (bit_vector);
}

pub fn feature_index(piece_color: Color, pt: PieceType, sq: Square, perspective: Color) -> (i: usize)
    requires
        sq < 64,
        pt != PieceType::NoType,
    ensures
        i == feature(piece_color, pt.num(), sq as int, perspective),
        i < 768,
{
    let rel_color: usize = if piece_color == perspective {
        0
    } else {
        1
    };
    let rel_sq: Square = if perspective == Color::White {
        sq
    } else {
        mirror_sq(sq)
    };
    rel_color * 384 + pt.index() * 64 + rel_sq as usize
}

fn bucket_of(ksq: Square) -> (b: usize)
    requires
        ksq < 64,
    ensures
        b == bucket(ksq as int),
        b < 4,
{
    let f: u8 = file_of(ksq);
    let low: usize = if rank_of(ksq) < 2 {
        0
    } else {
        2
    };
    if 2 <= f && f <= 5 {
        low + 1
    } else {
        low
    }
}

/// Where the features of a king's bucket start, with `stride` features per
/// bucket, and 7 if they are mirrored.
pub fn king_bucket_info_with_stride(ksq: Square, stride: usize) -> (r: (usize, usize))
    requires
        ksq < 64,
        stride <= 896,
    ensures
        r.0 == stride * bucket(ksq as int),
        r.1 == (if flips(ksq as int) {
            7int
        } else {
            0
        }),
{
    let flip: usize = if file_of(ksq) > 3 {
        7
    } else {
        0
    };
    let b: usize = bucket_of(ksq);
    assert(stride * b <= 896 * 4) by (nonlinear_arith)
        requires
            stride <= 896,
            b < 4,
    ;
    (stride * b, flip)
}

/// The same with the plain features only. Both sides use the square as it is.
pub fn king_bucket_info(ksq: Square, _perspective: Color) -> (r: (usize, usize))
    requires
        ksq < 64,
    ensures
        r.0 == 768 * bucket(ksq as int),
        r.1 == (if flips(ksq as int) {
            7int
        } else {
            0
        }),
{
    king_bucket_info_with_stride(ksq, INPUT_SIZE)
}

fn place_index(base: usize, bucket_offset: usize, h_flip: usize) -> (i: usize)
    requires
        base < 1024,
        bucket_offset <= 1_000_000,
        h_flip == 0 || h_flip == 7,
    ensures
        i == placed(base as int, bucket_offset as int, h_flip as int),
{
    proof {
        xor_seven(base as u64);
    }
    bucket_offset + ((base as u64) ^ (h_flip as u64)) as usize
}

pub fn feature_index_bucketed(
    piece_color: Color,
    pt: PieceType,
    sq: Square,
    perspective: Color,
    bucket_offset: usize,
    h_flip: usize,
) -> (i: usize)
    requires
        sq < 64,
        pt != PieceType::NoType,
        bucket_offset <= 1_000_000,
        h_flip == 0 || h_flip == 7,
    ensures
        i == placed(
            feature(piece_color, pt.num(), sq as int, perspective),
            bucket_offset as int,
            h_flip as int,
        ),
{
    place_index(feature_index(piece_color, pt, sq, perspective), bucket_offset, h_flip)
}

pub fn threat_feature_index_bucketed(
    attacker_color: Color,
    sq: Square,
    perspective: Color,
    bucket_offset: usize,
    h_flip: usize,
) -> (i: usize)
    requires
        sq < 64,
        bucket_offset <= 1_000_000,
        h_flip == 0 || h_flip == 7,
    ensures
        i == placed(
            threat_feature(attacker_color, sq as int, perspective),
            bucket_offset as int,
            h_flip as int,
        ),
{
    let rel_color: usize = if attacker_color == perspective {
        0
    } else {
        1
    };
    let rel_sq: Square = if perspective == Color::White {
        sq
    } else {
        mirror_sq(sq)
    };
    place_index(768 + rel_color * 64 + rel_sq as usize, bucket_offset, h_flip)
}

// ---- Parameters ----
/// The output layers.
pub enum NnueArch {
    /// One output neuron.
    SingleLayer { output_weights: Vec<i16>, output_bias: i16 },
    /// One output neuron per output bucket; the weights of a bucket are contiguous.
    SingleLayerOutBucket { output_weights: Vec<i16>, output_biases: Vec<i16> },
    /// A second hidden layer; its weights are stored input by input.
    L2Layer { l1_weights: Vec<i16>, l1_biases: Vec<i16>, l2_weights: Vec<i16>, l2_bias: i16 },
}

impl NnueArch {
    pub open spec fn wf(&self, h: int) -> bool {
        match *self {
            NnueArch::SingleLayer { output_weights, output_bias } => output_weights@.len() == 2 * h,
            NnueArch::SingleLayerOutBucket { output_weights, output_biases } => output_weights@.len()
                == 8 * (2 * h) && output_biases@.len() == 8,
            NnueArch::L2Layer { l1_weights, l1_biases, l2_weights, l2_bias } => l1_weights@.len()
                == 2 * h * 16 && l1_biases@.len() == 16 && l2_weights@.len() == 16,
        }
    }
}

/// The weights of a network. The weights of a feature are contiguous.
pub struct NnueParams {
    pub feature_weights: Vec<i16>,
    pub feature_biases: Vec<i16>,
    pub hidden_size: usize,
    pub num_buckets: usize,
    pub features_per_bucket: usize,
    pub has_threats: bool,
    pub arch: NnueArch,
}

impl NnueParams {
    /// How many features have weights.
    pub open spec fn rows(&self) -> int {
        self.features_per_bucket * self.num_buckets
    }

    pub open spec fn wf(&self) -> bool {
        &&& self.hidden_size <= 1024
        &&& 1 <= self.num_buckets <= 16
        &&& self.features_per_bucket == (if self.has_threats {
            896int
        } else {
            768
        })
        &&& self.feature_weights@.len() == self.rows() * self.hidden_size
        &&& self.feature_biases@.len() == self.hidden_size
        &&& self.arch.wf(self.hidden_size as int)
    }

    /// There are weights for every king bucket that the layout knows. A network with
    /// two buckets has none for a king beyond the second rank, and so none for the
    /// black king on its home square.
    pub open spec fn covers_layout(&self) -> bool {
        self.num_buckets == 1 || self.num_buckets >= 4
    }

    /// The weight of a feature for a lane.
    pub open spec fn weight(&self, f: int, j: int) -> int {
        self.feature_weights@[f * self.hidden_size + j] as int
    }

    /// Where the features of a perspective start.
    pub open spec fn offset(&self, p: Position, perspective: Color) -> int {
        if self.num_buckets > 1 {
            self.features_per_bucket * bucket(p.king_square(perspective))
        } else {
            0
        }
    }

    /// 7 if the features of a perspective are mirrored.
    pub open spec fn flip(&self, p: Position, perspective: Color) -> int {
        if self.num_buckets > 1 && flips(p.king_square(perspective)) {
            7
        } else {
            0
        }
    }

    /// The threat features are in use.
    pub open spec fn reads_threats(&self) -> bool {
        self.has_threats && self.num_buckets > 1
    }
}

// ---- What an accumulator holds ----
/// The 16-bit number that is congruent to an integer.
pub open spec fn wrap16(x: int) -> int {
    (x + 32768) % 65536 - 32768
}

/// The weight of a piece on a square for a lane.
pub open spec fn piece_weight(
    n: NnueParams,
    code: int,
    s: int,
    c: Color,
    offset: int,
    flip: int,
    j: int,
) -> int {
    if 0 <= code < 12 {
        n.weight(placed(feature(color_of(code), code % 6, s, c), offset, flip), j)
    } else {
        0
    }
}

/// The weights of the pieces on the first `k` squares.
pub open spec fn piece_sum(
    n: NnueParams,
    m: Seq<u8>,
    c: Color,
    offset: int,
    flip: int,
    j: int,
    k: int,
) -> int
    decreases k,
{
    if k <= 0 {
        0
    } else {
        piece_sum(n, m, c, offset, flip, j, k - 1) + piece_weight(
            n,
            m[k - 1] as int,
            k - 1,
            c,
            offset,
            flip,
            j,
        )
    }
}

/// The side attacks the square, as the threat features count it.
pub open spec fn threatens(p: Position, c: Color, t: int) -> bool {
    exists|s: int| #[trigger]
        side_attacks_from(
            p.pieces@,
            p.colors@[c.num()],
            c,
            p.colors@[0] | p.colors@[1],
            s,
            t,
        )
}

/// The weights of the squares that a side attacks among the first `k`.
pub open spec fn threat_sum(
    n: NnueParams,
    p: Position,
    by: Color,
    c: Color,
    offset: int,
    flip: int,
    j: int,
    k: int,
) -> int
    decreases k,
{
    if k <= 0 {
        0
    } else {
        threat_sum(n, p, by, c, offset, flip, j, k - 1) + (if threatens(p, by, k - 1) {
            n.weight(placed(threat_feature(by, k - 1, c), offset, flip), j)
        } else {
            0
        })
    }
}

/// The sum of a lane: the bias, the pieces and the threats.
pub open spec fn lane_sum(n: NnueParams, p: Position, c: Color, j: int) -> int {
    let offset = n.offset(p, c);
    let flip = n.flip(p, c);
    n.feature_biases@[j] + piece_sum(n, p.mailbox@, c, offset, flip, j, 64) + (if n.reads_threats() {
        threat_sum(n, p, Color::White, c, offset, flip, j, 64) + threat_sum(
            n,
            p,
            Color::Black,
            c,
            offset,
            flip,
            j,
            64,
        )
    } else {
        0
    })
}

/// The value of a lane for a position.
pub open spec fn lane(n: NnueParams, p: Position, c: Color, j: int) -> int {
    wrap16(lane_sum(n, p, c, j))
}

/// The sums of both perspectives, and where their features start.
pub struct Accumulator {
    pub white: Vec<i16>,
    pub black: Vec<i16>,
    pub computed: bool,
    pub white_kb: (usize, usize),
    pub black_kb: (usize, usize),
}

impl Accumulator {
    pub open spec fn wf(&self) -> bool {
        self.white@.len() == 1024 && self.black@.len() == 1024
    }

    pub open spec fn half(&self, c: Color) -> Seq<i16> {
        match c {
            Color::White => self.white@,
            Color::Black => self.black@,
        }
    }

    pub open spec fn kb(&self, c: Color) -> (usize, usize) {
        match c {
            Color::White => self.white_kb,
            Color::Black => self.black_kb,
        }
    }

    /// One perspective holds what the network computes for a position.
    pub open spec fn shows_half(&self, n: NnueParams, p: Position, c: Color) -> bool {
        &&& forall|j: int| 0 <= j < n.hidden_size ==> #[trigger] self.half(c)[j] == lane(n, p, c, j)
        &&& n.num_buckets > 1 ==> self.kb(c).0 == n.offset(p, c) && self.kb(c).1 == n.flip(p, c)
    }

    /// The accumulator holds what the network computes for a position.
    pub open spec fn shows(&self, n: NnueParams, p: Position) -> bool {
        self.wf() && self.shows_half(n, p, Color::White) && self.shows_half(n, p, Color::Black)
    }

    pub fn new() -> (a: Accumulator)
        ensures
            a.wf(),
            !a.computed,
            forall|j: int| 0 <= j < 1024 ==> #[trigger] a.white@[j] == 0 && a.black@[j] == 0,
            a.white_kb == (0usize, 0usize),
            a.black_kb == (0usize, 0usize),
    {
        Accumulator {
            white: vec![0; 1024],
            black: vec![0; 1024],
            computed: false,
            white_kb: (0, 0),
            black_kb: (0, 0),
        }
    }
}

// ---- Lemmas on sums ----
proof fn wrap_steps(a: int, b: int)
    ensures
        -32768 <= wrap16(a) <= 32767,
        wrap16(wrap16(a) + b) == wrap16(a + b),
        -32768 <= a <= 32767 ==> wrap16(a) == a,
{
    let k = (a + 32768) / 65536;
    assert(wrap16(a) == a - 65536 * k);
    assert((wrap16(a) + b + 32768) % 65536 == (a + b + 32768) % 65536) by {
        assert(wrap16(a) + b + 32768 == (a + b + 32768) + 65536 * (-k));
        vstd::arithmetic::div_mod::lemma_mod_multiples_vanish(-k, a + b + 32768, 65536);
    }
}

/// Exchanging what stands on one square exchanges its weight.
proof fn piece_sum_update(
    n: NnueParams,
    m: Seq<u8>,
    c: Color,
    offset: int,
    flip: int,
    j: int,
    k: int,
    s: int,
    code: u8,
)
    requires
        m.len() == 64,
        0 <= s < 64,
        0 <= k <= 64,
    ensures
        piece_sum(n, m.update(s, code), c, offset, flip, j, k) == piece_sum(
            n,
            m,
            c,
            offset,
            flip,
            j,
            k,
        ) + (if s < k {
            piece_weight(n, code as int, s, c, offset, flip, j) - piece_weight(
                n,
                m[s] as int,
                s,
                c,
                offset,
                flip,
                j,
            )
        } else {
            0
        }),
    decreases k,
{
    if k > 0 {
        piece_sum_update(n, m, c, offset, flip, j, k - 1, s, code);
    }
}

/// A feature's weights lie within the list of weights.
proof fn row_fits(n: NnueParams, f: int, j: int)
    requires
        n.wf(),
        0 <= f < n.rows(),
        0 <= j < n.hidden_size,
    ensures
        0 <= f * n.hidden_size + j < n.feature_weights@.len(),
        0 <= f * n.hidden_size,
{
    let h = n.hidden_size as int;
    let r = n.rows();
    assert(0 <= f * h && f * h + j < r * h) by (nonlinear_arith)
        requires
            0 <= f < r,
            0 <= j < h,
    ;
}

/// The features of a position lie within the rows of the network.
proof fn placed_fits(n: NnueParams, p: Position, c: Color, base: int)
    requires
        n.wf(),
        n.covers_layout(),
        0 <= base < n.features_per_bucket,
        n.num_buckets > 1 ==> 0 <= p.king_square(c) < 64,
    ensures
        0 <= placed(base, n.offset(p, c), n.flip(p, c)) < n.rows(),
        0 <= n.offset(p, c) <= 2688,
        n.flip(p, c) == 0 || n.flip(p, c) == 7,
{
    let stride = n.features_per_bucket as int;
    let b = n.num_buckets as int;
    if b > 1 {
        let k = bucket(p.king_square(c));
        assert(0 <= stride * k && stride * k + stride <= stride * b && stride * k <= 2688) by (nonlinear_arith)
            requires
                0 <= k <= 3,
                b >= 4,
                768 <= stride <= 896,
        ;
    } else {
        assert(stride * b == stride) by (nonlinear_arith)
            requires
                b == 1,
        ;
    }
}

// ---- Vectors ----
/// Adds the weights of a feature to the lanes.
fn vec_add_i16(dst: &mut Vec<i16>, n: &NnueParams, f: usize)
    requires
        n.wf(),
        f < n.rows(),
        old(dst)@.len() == 1024,
    ensures
        final(dst)@.len() == 1024,
        forall|j: int|
            0 <= j < n.hidden_size ==> #[trigger] final(dst)@[j] == wrap16(
                old(dst)@[j] + n.weight(f as int, j),
            ),
{
    let h: usize = n.hidden_size;
    assert(0 <= f * h < 20_000_000) by (nonlinear_arith)
        requires
            f < 14336,
            h <= 1024,
    ;
    let row: usize = f * h;
    let ghost before = dst@;
    let mut j: usize = 0;
    while j < h
        invariant
            n.wf(),
            f < n.rows(),
            h == n.hidden_size,
            row == f * h,
            row < 20_000_000,
            j <= h,
            dst@.len() == 1024,
            before.len() == 1024,
            forall|i: int| j <= i < 1024 ==> #[trigger] dst@[i] == before[i],
            forall|i: int|
                0 <= i < j ==> #[trigger] dst@[i] == wrap16(before[i] + n.weight(f as int, i)),
        decreases h - j,
    {
        proof {
            row_fits(*n, f as int, j as int);
        }
        let w: i16 = n.feature_weights[row + j];
        let v: i16 = dst[j].wrapping_add(w);
        proof {
            wrap_steps(before[j as int] + w, 0);
        }
        dst.set(j, v);
        j = j + 1;
    }
}

/// Subtracts the weights of a feature from the lanes.
fn vec_sub_i16(dst: &mut Vec<i16>, n: &NnueParams, f: usize)
    requires
        n.wf(),
        f < n.rows(),
        old(dst)@.len() == 1024,
    ensures
        final(dst)@.len() == 1024,
        forall|j: int|
            0 <= j < n.hidden_size ==> #[trigger] final(dst)@[j] == wrap16(
                old(dst)@[j] - n.weight(f as int, j),
            ),
{
    let h: usize = n.hidden_size;
    assert(0 <= f * h < 20_000_000) by (nonlinear_arith)
        requires
            f < 14336,
            h <= 1024,
    ;
    let row: usize = f * h;
    let ghost before = dst@;
    let mut j: usize = 0;
    while j < h
        invariant
            n.wf(),
            f < n.rows(),
            h == n.hidden_size,
            row == f * h,
            row < 20_000_000,
            j <= h,
            dst@.len() == 1024,
            before.len() == 1024,
            forall|i: int| j <= i < 1024 ==> #[trigger] dst@[i] == before[i],
            forall|i: int|
                0 <= i < j ==> #[trigger] dst@[i] == wrap16(before[i] - n.weight(f as int, i)),
        decreases h - j,
    {
        proof {
            row_fits(*n, f as int, j as int);
        }
        let w: i16 = n.feature_weights[row + j];
        let v: i16 = dst[j].wrapping_sub(w);
        proof {
            wrap_steps(before[j as int] - w, 0);
        }
        dst.set(j, v);
        j = j + 1;
    }
}

// ---- Computing an accumulator from scratch ----
/// Adds the pieces of a position to the lanes of a perspective.
fn add_pieces(
    n: &NnueParams,
    pos: &Position,
    c: Color,
    dst: &mut Vec<i16>,
    offset: usize,
    flip: usize,
)
    requires
        n.wf(),
        n.covers_layout(),
        pos.wf_boards(),
        n.num_buckets > 1 ==> 0 <= pos.king_square(c) < 64,
        offset == n.offset(*pos, c),
        flip == n.flip(*pos, c),
        old(dst)@.len() == 1024,
    ensures
        final(dst)@.len() == 1024,
        forall|j: int|
            0 <= j < n.hidden_size ==> #[trigger] final(dst)@[j] == wrap16(
                old(dst)@[j] + piece_sum(
                    *n,
                    pos.mailbox@,
                    c,
                    offset as int,
                    flip as int,
                    j,
                    64,
                ),
            ),
{
    let ghost before = dst@;
    let mut s: u8 = 0;
    proof {
        assert forall|j: int| 0 <= j < n.hidden_size implies #[trigger] dst@[j] == wrap16(
            before[j] + piece_sum(*n, pos.mailbox@, c, offset as int, flip as int, j, 0),
        ) by {
            wrap_steps(before[j] as int, 0);
        }
    }
    while s < 64
        invariant
            n.wf(),
            n.covers_layout(),
            pos.wf_boards(),
            n.num_buckets > 1 ==> 0 <= pos.king_square(c) < 64,
            offset == n.offset(*pos, c),
            flip == n.flip(*pos, c),
            s <= 64,
            dst@.len() == 1024,
            before.len() == 1024,
            forall|j: int|
                0 <= j < n.hidden_size ==> #[trigger] dst@[j] == wrap16(
                    before[j] + piece_sum(
                        *n,
                        pos.mailbox@,
                        c,
                        offset as int,
                        flip as int,
                        j,
                        s as int,
                    ),
                ),
        decreases 64 - s,
    {
        let piece: u8 = pos.mailbox[s as usize];
        let ghost here = dst@;
        proof {
            codes_bounded(*pos);
        }
        if piece < EMPTY {
            let pc: Color = piece_color(piece);
            let pt: PieceType = piece_type(piece);
            let ghost base = feature(pc, pt.num(), s as int, c);
            proof {
                assert(0 <= base < 768);
                placed_fits(*n, *pos, c, base);
            }
            let f: usize = feature_index_bucketed(pc, pt, s, c, offset, flip);
            vec_add_i16(dst, n, f);
            proof {
                assert forall|j: int| 0 <= j < n.hidden_size implies #[trigger] dst@[j] == wrap16(
                    before[j] + piece_sum(
                        *n,
                        pos.mailbox@,
                        c,
                        offset as int,
                        flip as int,
                        j,
                        s + 1,
                    ),
                ) by {
                    let sum = piece_sum(
                        *n,
                        pos.mailbox@,
                        c,
                        offset as int,
                        flip as int,
                        j,
                        s as int,
                    );
                    assert(here[j] == wrap16(before[j] + sum));
                    wrap_steps(before[j] + sum, n.weight(f as int, j));
                }
            }
        }
        s = s + 1;
    }
}

/// Adds the squares that a side attacks to the lanes of a perspective.
fn add_threats(
    n: &NnueParams,
    pos: &Position,
    by: Color,
    c: Color,
    dst: &mut Vec<i16>,
    offset: usize,
    flip: usize,
)
    requires
        n.wf(),
        n.covers_layout(),
        n.reads_threats(),
        0 <= pos.king_square(c) < 64,
        offset == n.offset(*pos, c),
        flip == n.flip(*pos, c),
        old(dst)@.len() == 1024,
    ensures
        final(dst)@.len() == 1024,
        forall|j: int|
            0 <= j < n.hidden_size ==> #[trigger] final(dst)@[j] == wrap16(
                old(dst)@[j] + threat_sum(
                    *n,
                    *pos,
                    by,
                    c,
                    offset as int,
                    flip as int,
                    j,
                    64,
                ),
            ),
{
    let ghost before = dst@;
    let hits: u64 = attacks_by_color(&pos.pieces, &pos.colors, by);
    assert(forall|t: int| 0 <= t < 64 ==> #[trigger] member(hits, t) == threatens(*pos, by, t));
    let mut s: u8 = 0;
    proof {
        assert forall|j: int| 0 <= j < n.hidden_size implies #[trigger] dst@[j] == wrap16(
            before[j] + threat_sum(*n, *pos, by, c, offset as int, flip as int, j, 0),
        ) by {
            wrap_steps(before[j] as int, 0);
        }
    }
    while s < 64
        invariant
            n.wf(),
            n.covers_layout(),
            n.reads_threats(),
            0 <= pos.king_square(c) < 64,
            offset == n.offset(*pos, c),
            flip == n.flip(*pos, c),
            forall|t: int|
                0 <= t < 64 ==> #[trigger] member(hits, t) == threatens(*pos, by, t),
            s <= 64,
            dst@.len() == 1024,
            before.len() == 1024,
            forall|j: int|
                0 <= j < n.hidden_size ==> #[trigger] dst@[j] == wrap16(
                    before[j] + threat_sum(
                        *n,
                        *pos,
                        by,
                        c,
                        offset as int,
                        flip as int,
                        j,
                        s as int,
                    ),
                ),
        decreases 64 - s,
    {
        let ghost here = dst@;
        if contains(hits, s) {
            proof {
                placed_fits(*n, *pos, c, threat_feature(by, s as int, c));
            }
            let f: usize = threat_feature_index_bucketed(by, s, c, offset, flip);
            vec_add_i16(dst, n, f);
            proof {
                assert forall|j: int| 0 <= j < n.hidden_size implies #[trigger] dst@[j] == wrap16(
                    before[j] + threat_sum(
                        *n,
                        *pos,
                        by,
                        c,
                        offset as int,
                        flip as int,
                        j,
                        s + 1,
                    ),
                ) by {
                    let sum = threat_sum(
                        *n,
                        *pos,
                        by,
                        c,
                        offset as int,
                        flip as int,
                        j,
                        s as int,
                    );
                    assert(here[j] == wrap16(before[j] + sum));
                    wrap_steps(before[j] + sum, n.weight(f as int, j));
                }
            }
        }
        s = s + 1;
    }
}

/// The lanes of a perspective, and where its features start.
fn refresh_half(n: &NnueParams, pos: &Position, c: Color) -> (r: (Vec<i16>, (usize, usize)))
    requires
        n.wf(),
        n.covers_layout(),
        pos.wf_boards(),
        n.num_buckets > 1 ==> pos.king_square(c) < 64,
    ensures
        r.0@.len() == 1024,
        forall|j: int| 0 <= j < n.hidden_size ==> #[trigger] r.0@[j] == lane(*n, *pos, c, j),
        r.1.0 == n.offset(*pos, c),
        r.1.1 == n.flip(*pos, c),
{
    let mut dst: Vec<i16> = vec![0; 1024];
    let h: usize = n.hidden_size;
    let mut j: usize = 0;
    while j < h
        invariant
            h == n.hidden_size,
            n.wf(),
            j <= h,
            dst@.len() == 1024,
            forall|i: int| 0 <= i < j ==> #[trigger] dst@[i] == n.feature_biases@[i],
        decreases h - j,
    {
        dst.set(j, n.feature_biases[j]);
        j = j + 1;
    }
    let ghost biases = dst@;
    let kb: (usize, usize) = if n.num_buckets > 1 {
        king_bucket_info_with_stride(pos.king_sq(c), n.features_per_bucket)
    } else {
        (0, 0)
    };
    add_pieces(n, pos, c, &mut dst, kb.0, kb.1);
    let ghost pieces = dst@;
    if n.has_threats && n.num_buckets > 1 {
        add_threats(n, pos, Color::White, c, &mut dst, kb.0, kb.1);
        let ghost white = dst@;
        add_threats(n, pos, Color::Black, c, &mut dst, kb.0, kb.1);
        proof {
            assert forall|i: int| 0 <= i < n.hidden_size implies #[trigger] dst@[i] == lane(
                *n,
                *pos,
                c,
                i,
            ) by {
                let a = piece_sum(*n, pos.mailbox@, c, kb.0 as int, kb.1 as int, i, 64);
                let w = threat_sum(
                    *n,
                    *pos,
                    Color::White,
                    c,
                    kb.0 as int,
                    kb.1 as int,
                    i,
                    64,
                );
                let b = threat_sum(
                    *n,
                    *pos,
                    Color::Black,
                    c,
                    kb.0 as int,
                    kb.1 as int,
                    i,
                    64,
                );
                assert(pieces[i] == wrap16(biases[i] + a));
                assert(white[i] == wrap16(pieces[i] + w));
                wrap_steps(biases[i] + a, w);
                wrap_steps(biases[i] + a + w, b);
            }
        }
    }
    (dst, kb)
}

// ---- What a move changes ----
/// The pieces that a move takes off the board, with their squares.
pub open spec fn taken_off(m: Seq<u8>, us: Color, mv: Move) -> Seq<(int, int)> {
    let f = mv.src();
    let t = mv.dst();
    let h = home(us);
    let king = piece_code(us, PieceType::King);
    let rook = piece_code(us, PieceType::Rook);
    if mv.flag() == 2 {
        seq![(king, f), (rook, h + 7)]
    } else if mv.flag() == 3 {
        seq![(king, f), (rook, h)]
    } else if mv.flag() == 5 {
        seq![
            (piece_code(us, PieceType::Pawn), f),
            (piece_code(us.other(), PieceType::Pawn), behind(us, t)),
        ]
    } else if mv.flag() == 4 || mv.flag() >= 12 {
        seq![(m[f] as int, f), (m[t] as int, t)]
    } else {
        seq![(m[f] as int, f)]
    }
}

/// The pieces that a move puts on the board, with their squares.
pub open spec fn put_on(m: Seq<u8>, us: Color, mv: Move) -> Seq<(int, int)> {
    let f = mv.src();
    let t = mv.dst();
    let h = home(us);
    let king = piece_code(us, PieceType::King);
    let rook = piece_code(us, PieceType::Rook);
    if mv.flag() == 2 {
        seq![(king, t), (rook, h + 5)]
    } else if mv.flag() == 3 {
        seq![(king, t), (rook, h + 3)]
    } else if mv.flag() >= 8 {
        seq![(piece_code(us, mv.promo_type()), t)]
    } else {
        seq![(m[f] as int, t)]
    }
}

/// The weights of a list of pieces.
pub open spec fn list_sum(
    n: NnueParams,
    l: Seq<(int, int)>,
    c: Color,
    offset: int,
    flip: int,
    j: int,
) -> int
    decreases l.len(),
{
    if l.len() == 0 {
        0
    } else {
        list_sum(n, l.drop_last(), c, offset, flip, j) + piece_weight(
            n,
            l.last().0,
            l.last().1,
            c,
            offset,
            flip,
            j,
        )
    }
}

proof fn list_sum_short(
    n: NnueParams,
    l: Seq<(int, int)>,
    c: Color,
    offset: int,
    flip: int,
    j: int,
)
    requires
        1 <= l.len() <= 2,
    ensures
        list_sum(n, l, c, offset, flip, j) == piece_weight(
            n,
            l[0].0,
            l[0].1,
            c,
            offset,
            flip,
            j,
        ) + (if l.len() == 2 {
            piece_weight(n, l[1].0, l[1].1, c, offset, flip, j)
        } else {
            0
        }),
{
    reveal_with_fuel(list_sum, 3);
}

/// A move changes the weights of the board by the pieces that it takes off and
/// puts on.
pub proof fn move_changes_sum(
    n: NnueParams,
    m: Seq<u8>,
    us: Color,
    mv: Move,
    c: Color,
    offset: int,
    flip: int,
    j: int,
)
    requires
        m.len() == 64,
        fits(m, us, mv),
        mv.flag() != 6,
        mv.flag() != 7,
    ensures
        piece_sum(n, moved(m, us, mv), c, offset, flip, j, 64) == piece_sum(
            n,
            m,
            c,
            offset,
            flip,
            j,
            64,
        ) - list_sum(n, taken_off(m, us, mv), c, offset, flip, j) + list_sum(
            n,
            put_on(m, us, mv),
            c,
            offset,
            flip,
            j,
        ),
{
    reveal(fits);
    reveal(moved);
    crate::types::move_parts_roundtrip(mv);
    let f = mv.src();
    let t = mv.dst();
    let h = home(us);
    list_sum_short(n, taken_off(m, us, mv), c, offset, flip, j);
    list_sum_short(n, put_on(m, us, mv), c, offset, flip, j);
    if mv.flag() == 2 || mv.flag() == 3 {
        let a = if mv.flag() == 2 {
            h + 7
        } else {
            h
        };
        let b = if mv.flag() == 2 {
            h + 5
        } else {
            h + 3
        };
        let m1 = m.update(f, EMPTY);
        let m2 = m1.update(t, m[f]);
        let m3 = m2.update(a, EMPTY);
        piece_sum_update(n, m, c, offset, flip, j, 64, f, EMPTY);
        piece_sum_update(n, m1, c, offset, flip, j, 64, t, m[f]);
        piece_sum_update(n, m2, c, offset, flip, j, 64, a, EMPTY);
        piece_sum_update(n, m3, c, offset, flip, j, 64, b, m[a]);
    } else if mv.flag() == 5 {
        let b = behind(us, t);
        let m1 = m.update(b, EMPTY);
        let m2 = m1.update(f, EMPTY);
        piece_sum_update(n, m, c, offset, flip, j, 64, b, EMPTY);
        piece_sum_update(n, m1, c, offset, flip, j, 64, f, EMPTY);
        piece_sum_update(n, m2, c, offset, flip, j, 64, t, m[f]);
    } else {
        let code = if mv.flag() >= 8 {
            piece_code(us, mv.promo_type()) as u8
        } else {
            m[f]
        };
        let m1 = m.update(f, EMPTY);
        piece_sum_update(n, m, c, offset, flip, j, 64, f, EMPTY);
        piece_sum_update(n, m1, c, offset, flip, j, 64, t, code);
    }
}

/// The index of a piece on a square for both perspectives.
#[derive(Clone, Copy)]
pub struct Feature {
    pub white: usize,
    pub black: usize,
}

impl Feature {
    pub open spec fn of(&self, c: Color) -> int {
        match c {
            Color::White => self.white as int,
            Color::Black => self.black as int,
        }
    }
}

/// The feature names the piece on the square.
pub open spec fn names(x: Feature, piece: (int, int)) -> bool {
    &&& 0 <= piece.0 < 12
    &&& on_board(piece.1)
    &&& x.white == feature(color_of(piece.0), piece.0 % 6, piece.1, Color::White)
    &&& x.black == feature(color_of(piece.0), piece.0 % 6, piece.1, Color::Black)
}

/// The features name the pieces of a list, one by one.
pub open spec fn names_all(v: Seq<Feature>, l: Seq<(int, int)>) -> bool {
    v.len() == l.len() && forall|i: int| 0 <= i < v.len() ==> names(#[trigger] v[i], l[i])
}

/// The features that a move removes and adds.
pub struct FeatureDelta {
    pub added: Vec<Feature>,
    pub removed: Vec<Feature>,
    /// The king that moves changes its bucket or crosses the mirror line.
    pub king_bucket_changed: bool,
}

impl FeatureDelta {
    fn new() -> (d: FeatureDelta)
        ensures
            d.added@.len() == 0,
            d.removed@.len() == 0,
            !d.king_bucket_changed,
    {
        FeatureDelta { added: Vec::new(), removed: Vec::new(), king_bucket_changed: false }
    }

    fn add_feature(&mut self, color: Color, pt: PieceType, sq: Square)
        requires
            sq < 64,
            pt != PieceType::NoType,
        ensures
            final(self).removed == old(self).removed,
            final(self).king_bucket_changed == old(self).king_bucket_changed,
            final(self).added@.len() == old(self).added@.len() + 1,
            forall|i: int|
                0 <= i < old(self).added@.len() ==> #[trigger] final(self).added@[i] == old(
                    self,
                ).added@[i],
            names(final(self).added@[old(self).added@.len() as int], (piece_code(color, pt), sq as int)),
    {
        let w: usize = feature_index(color, pt, sq, Color::White);
        let b: usize = feature_index(color, pt, sq, Color::Black);
        proof {
            crate::types::piece_code_roundtrip(color, pt, 0);
        }
        self.added.push(Feature { white: w, black: b });
    }

    fn remove_feature(&mut self, color: Color, pt: PieceType, sq: Square)
        requires
            sq < 64,
            pt != PieceType::NoType,
        ensures
            final(self).added == old(self).added,
            final(self).king_bucket_changed == old(self).king_bucket_changed,
            final(self).removed@.len() == old(self).removed@.len() + 1,
            forall|i: int|
                0 <= i < old(self).removed@.len() ==> #[trigger] final(self).removed@[i] == old(
                    self,
                ).removed@[i],
            names(final(self).removed@[old(self).removed@.len() as int], (piece_code(color, pt), sq as int)),
    {
        let w: usize = feature_index(color, pt, sq, Color::White);
        let b: usize = feature_index(color, pt, sq, Color::Black);
        proof {
            crate::types::piece_code_roundtrip(color, pt, 0);
        }
        self.removed.push(Feature { white: w, black: b });
    }
}

/// The features that a move changes, before the move is made.
#[verifier::rlimit(30)]
pub fn compute_delta(pos: &Position, mv: Move) -> (d: FeatureDelta)
    requires
        pos.wf_boards(),
        fits(pos.mailbox@, pos.side, mv),
        mv.flag() != 6,
        mv.flag() != 7,
    ensures
        names_all(d.removed@, taken_off(pos.mailbox@, pos.side, mv)),
        names_all(d.added@, put_on(pos.mailbox@, pos.side, mv)),
        d.king_bucket_changed == (type_of(pos.mailbox@[mv.src()] as int) == PieceType::King && (
        bucket(mv.src()) != bucket(mv.dst()) || flips(mv.src()) != flips(mv.dst()))),
{
    reveal(fits);
    proof {
        crate::types::move_parts_roundtrip(mv);
        codes_bounded(*pos);
    }
    let mut d: FeatureDelta = FeatureDelta::new();
    let us: Color = pos.side;
    let them: Color = us.flip();
    let from: Square = mv.from();
    let to: Square = mv.to();
    let moving: u8 = pos.mailbox[from as usize];
    let moving_pt: PieceType = piece_type(moving);
    if moving_pt == PieceType::King {
        let a: (usize, usize) = king_bucket_info(from, us);
        let b: (usize, usize) = king_bucket_info(to, us);
        d.king_bucket_changed = a.0 != b.0 || a.1 != b.1;
    }
    let flags: u16 = mv.flags();
    let corner: Square = match us {
        Color::White => 0,
        Color::Black => 56,
    };
    if flags == 2 {
        d.remove_feature(us, PieceType::King, from);
        d.add_feature(us, PieceType::King, to);
        d.remove_feature(us, PieceType::Rook, corner + 7);
        d.add_feature(us, PieceType::Rook, corner + 5);
    } else if flags == 3 {
        d.remove_feature(us, PieceType::King, from);
        d.add_feature(us, PieceType::King, to);
        d.remove_feature(us, PieceType::Rook, corner);
        d.add_feature(us, PieceType::Rook, corner + 3);
    } else if flags == 5 {
        let cap_sq: Square = match us {
            Color::White => to - 8,
            Color::Black => to + 8,
        };
        d.remove_feature(us, PieceType::Pawn, from);
        d.remove_feature(them, PieceType::Pawn, cap_sq);
        d.add_feature(us, PieceType::Pawn, to);
    } else {
        d.remove_feature(us, moving_pt, from);
        if flags == 4 || flags >= 12 {
            d.remove_feature(them, piece_type(pos.mailbox[to as usize]), to);
        }
        if flags >= 8 {
            d.add_feature(us, mv.promo_piece_type(), to);
        } else {
            d.add_feature(us, moving_pt, to);
        }
    }
    d
}

// ---- Updating an accumulator ----
/// The weights of a list of features.
pub open spec fn features_sum(
    n: NnueParams,
    v: Seq<Feature>,
    c: Color,
    offset: int,
    flip: int,
    j: int,
    k: int,
) -> int
    decreases k,
{
    if k <= 0 {
        0
    } else {
        features_sum(n, v, c, offset, flip, j, k - 1) + n.weight(
            placed(v[k - 1].of(c), offset, flip),
            j,
        )
    }
}

/// The features are those of one bucket, and the bucket has weights.
pub open spec fn fit_rows(n: NnueParams, v: Seq<Feature>, offset: int, flip: int) -> bool {
    &&& 0 <= offset <= n.rows() - 768
    &&& flip == 0 || flip == 7
    &&& forall|i: int| 0 <= i < v.len() ==> #[trigger] v[i].white < 768 && v[i].black < 768
}

/// Named features weigh what their pieces weigh.
proof fn named_sums(
    n: NnueParams,
    v: Seq<Feature>,
    l: Seq<(int, int)>,
    c: Color,
    offset: int,
    flip: int,
    j: int,
)
    requires
        names_all(v, l),
    ensures
        features_sum(n, v, c, offset, flip, j, v.len() as int) == list_sum(
            n,
            l,
            c,
            offset,
            flip,
            j,
        ),
    decreases v.len(),
{
    if v.len() > 0 {
        let w = v.drop_last();
        let r = l.drop_last();
        assert forall|i: int| 0 <= i < w.len() implies names(#[trigger] w[i], r[i]) by {
            assert(names(v[i], l[i]));
        }
        named_sums(n, w, r, c, offset, flip, j);
        features_prefix(n, v, w, c, offset, flip, j, v.len() - 1);
        assert(names(v.last(), l.last()));
    }
}

proof fn features_prefix(
    n: NnueParams,
    v: Seq<Feature>,
    w: Seq<Feature>,
    c: Color,
    offset: int,
    flip: int,
    j: int,
    k: int,
)
    requires
        0 <= k <= v.len(),
        k <= w.len(),
        forall|i: int| 0 <= i < k ==> v[i] == w[i],
    ensures
        features_sum(n, v, c, offset, flip, j, k) == features_sum(n, w, c, offset, flip, j, k),
    decreases k,
{
    if k > 0 {
        features_prefix(n, v, w, c, offset, flip, j, k - 1);
    }
}

fn feature_of(x: Feature, c: Color) -> (i: usize)
    ensures
        i == x.of(c),
{
    match c {
        Color::White => x.white,
        Color::Black => x.black,
    }
}

/// Takes the weights of features away from lanes and adds those of others.
fn apply_features(
    n: &NnueParams,
    parent: &Vec<i16>,
    delta: &FeatureDelta,
    c: Color,
    offset: usize,
    flip: usize,
) -> (dst: Vec<i16>)
    requires
        n.wf(),
        parent@.len() == 1024,
        fit_rows(*n, delta.removed@, offset as int, flip as int),
        fit_rows(*n, delta.added@, offset as int, flip as int),
        offset <= 1_000_000,
    ensures
        dst@.len() == 1024,
        forall|j: int|
            0 <= j < n.hidden_size ==> #[trigger] dst@[j] == wrap16(
                parent@[j] - features_sum(
                    *n,
                    delta.removed@,
                    c,
                    offset as int,
                    flip as int,
                    j,
                    delta.removed@.len() as int,
                ) + features_sum(
                    *n,
                    delta.added@,
                    c,
                    offset as int,
                    flip as int,
                    j,
                    delta.added@.len() as int,
                ),
            ),
{
    let ghost o = offset as int;
    let ghost fl = flip as int;
    let mut dst: Vec<i16> = copy_lanes(parent, n.hidden_size);
    let mut k: usize = 0;
    proof {
        assert forall|j: int| 0 <= j < n.hidden_size implies #[trigger] dst@[j] == wrap16(
            parent@[j] - features_sum(*n, delta.removed@, c, o, fl, j, 0),
        ) by {
            wrap_steps(parent@[j] as int, 0);
        }
    }
    while k < delta.removed.len()
        invariant
            n.wf(),
            fit_rows(*n, delta.removed@, offset as int, flip as int),
            offset <= 1_000_000,
            o == offset as int,
            fl == flip as int,
            k <= delta.removed@.len(),
            dst@.len() == 1024,
            parent@.len() == 1024,
            forall|j: int|
                0 <= j < n.hidden_size ==> #[trigger] dst@[j] == wrap16(
                    parent@[j] - features_sum(*n, delta.removed@, c, o, fl, j, k as int),
                ),
        decreases delta.removed@.len() - k,
    {
        let ghost here = dst@;
        assert(delta.removed@[k as int].white < 768 && delta.removed@[k as int].black < 768);
        let f: usize = place_index(feature_of(delta.removed[k], c), offset, flip);
        vec_sub_i16(&mut dst, n, f);
        proof {
            assert forall|j: int| 0 <= j < n.hidden_size implies #[trigger] dst@[j] == wrap16(
                parent@[j] - features_sum(*n, delta.removed@, c, o, fl, j, k + 1),
            ) by {
                let sum = features_sum(*n, delta.removed@, c, o, fl, j, k as int);
                assert(here[j] == wrap16(parent@[j] - sum));
                wrap_steps(parent@[j] - sum, -n.weight(f as int, j));
            }
        }
        k = k + 1;
    }
    let ghost rm = delta.removed@.len() as int;
    let mut a: usize = 0;
    while a < delta.added.len()
        invariant
            n.wf(),
            fit_rows(*n, delta.added@, offset as int, flip as int),
            offset <= 1_000_000,
            o == offset as int,
            fl == flip as int,
            a <= delta.added@.len(),
            dst@.len() == 1024,
            parent@.len() == 1024,
            forall|j: int|
                0 <= j < n.hidden_size ==> #[trigger] dst@[j] == wrap16(
                    parent@[j] - features_sum(*n, delta.removed@, c, o, fl, j, rm) + features_sum(
                        *n,
                        delta.added@,
                        c,
                        o,
                        fl,
                        j,
                        a as int,
                    ),
                ),
        decreases delta.added@.len() - a,
    {
        let ghost here = dst@;
        assert(delta.added@[a as int].white < 768 && delta.added@[a as int].black < 768);
        let f: usize = place_index(feature_of(delta.added[a], c), offset, flip);
        vec_add_i16(&mut dst, n, f);
        proof {
            assert forall|j: int| 0 <= j < n.hidden_size implies #[trigger] dst@[j] == wrap16(
                parent@[j] - features_sum(*n, delta.removed@, c, o, fl, j, rm) + features_sum(
                    *n,
                    delta.added@,
                    c,
                    o,
                    fl,
                    j,
                    a + 1,
                ),
            ) by {
                let sum = parent@[j] - features_sum(*n, delta.removed@, c, o, fl, j, rm)
                    + features_sum(*n, delta.added@, c, o, fl, j, a as int);
                assert(here[j] == wrap16(sum));
                wrap_steps(sum, n.weight(f as int, j));
            }
        }
        a = a + 1;
    }
    dst
}

/// A copy of the lanes in use.
fn copy_lanes(src: &Vec<i16>, h: usize) -> (dst: Vec<i16>)
    requires
        src@.len() == 1024,
        h <= 1024,
    ensures
        dst@.len() == 1024,
        forall|j: int| 0 <= j < h ==> #[trigger] dst@[j] == src@[j],
{
    let mut dst: Vec<i16> = vec![0; 1024];
    let mut j: usize = 0;
    while j < h
        invariant
            h <= 1024,
            j <= h,
            src@.len() == 1024,
            dst@.len() == 1024,
            forall|i: int| 0 <= i < j ==> #[trigger] dst@[i] == src@[i],
        decreases h - j,
    {
        dst.set(j, src[j]);
        j = j + 1;
    }
    dst
}

// ---- The forward pass ----
/// The squared clipped activation.
pub open spec fn activation(x: int) -> int {
    clamped(x, 0, 255) * clamped(x, 0, 255)
}

fn screlu(x: i64) -> (y: i64)
    ensures
        y == activation(x as int),
        0 <= y <= 65025,
{
    let c: i64 = if x < 0 {
        0
    } else if x > 255 {
        255
    } else {
        x
    };
    assert(0 <= c * c <= 65025) by (nonlinear_arith)
        requires
            0 <= c <= 255,
    ;
    c * c
}

/// The product of the activated lanes of both halves with weights, over the
/// first `k` lanes. The second half's weights follow those of the first.
pub open spec fn dot(
    white: Seq<i16>,
    black: Seq<i16>,
    w: Seq<i16>,
    start: int,
    h: int,
    k: int,
) -> int
    decreases k,
{
    if k <= 0 {
        0
    } else {
        dot(white, black, w, start, h, k - 1) + activation(white[k - 1] as int) * w[start + k - 1]
            + activation(black[k - 1] as int) * w[start + h + k - 1]
    }
}

proof fn product_bound(a: int, w: int)
    requires
        0 <= a <= 65025,
        -32768 <= w <= 32767,
    ensures
        -2_130_739_200 <= a * w <= 2_130_739_200,
{
    assert(-2_130_739_200 <= a * w <= 2_130_739_200) by (nonlinear_arith)
        requires
            0 <= a <= 65025,
            -32768 <= w <= 32767,
    ;
}

fn screlu_dot(white: &Vec<i16>, black: &Vec<i16>, w: &Vec<i16>, start: usize, h: usize) -> (r: i64)
    requires
        h <= 1024,
        white@.len() == 1024,
        black@.len() == 1024,
        start + 2 * h <= w.len(),
    ensures
        r == dot(white@, black@, w@, start as int, h as int, h as int),
        -4_400_000_000_000 <= r <= 4_400_000_000_000,
{
    let mut r: i64 = 0;
    let mut k: usize = 0;
    while k < h
        invariant
            h <= 1024,
            white@.len() == 1024,
            black@.len() == 1024,
            start + 2 * h <= w.len(),
            k <= h,
            r == dot(white@, black@, w@, start as int, h as int, k as int),
            -4_261_478_400 * k <= r <= 4_261_478_400 * k,
        decreases h - k,
    {
        let a: i64 = screlu(white[k] as i64);
        let b: i64 = screlu(black[k] as i64);
        let wa: i64 = w[start + k] as i64;
        let wb: i64 = w[start + h + k] as i64;
        proof {
            product_bound(a as int, wa as int);
            product_bound(b as int, wb as int);
        }
        r = r + a * wa + b * wb;
        k = k + 1;
    }
    r
}

/// The centipawns of an output sum.
pub open spec fn centipawns(sum: int, bias: int) -> int {
    tdiv((tdiv(sum, 255) + bias) * 400, 16320)
}

fn to_centipawns(sum: i64, bias: i16) -> (v: i32)
    requires
        -4_400_000_000_000 <= sum <= 4_400_000_000_000,
    ensures
        v == centipawns(sum as int, bias as int),
        -430_000_000 <= v <= 430_000_000,
{
    let out: i64 = sum / 255 + bias as i64;
    ((out * 400) / 16320) as i32
}

/// The input of a neuron of the second layer over the first `k` lanes.
pub open spec fn l1_dot(
    white: Seq<i16>,
    black: Seq<i16>,
    w: Seq<i16>,
    h: int,
    neuron: int,
    k: int,
) -> int
    decreases k,
{
    if k <= 0 {
        0
    } else {
        l1_dot(white, black, w, h, neuron, k - 1) + activation(white[k - 1] as int) * w[(k - 1) * 16
            + neuron] + activation(black[k - 1] as int) * w[(h + k - 1) * 16 + neuron]
    }
}

/// The output of a neuron of the second layer, before its activation.
pub open spec fn l1_value(
    white: Seq<i16>,
    black: Seq<i16>,
    w: Seq<i16>,
    biases: Seq<i16>,
    h: int,
    neuron: int,
) -> int {
    tdiv(tdiv(l1_dot(white, black, w, h, neuron, h), 255) + biases[neuron], 64)
}

/// The output sum of the second layer over its first `k` neurons.
pub open spec fn l2_dot(
    white: Seq<i16>,
    black: Seq<i16>,
    l1w: Seq<i16>,
    l1b: Seq<i16>,
    l2w: Seq<i16>,
    h: int,
    k: int,
) -> int
    decreases k,
{
    if k <= 0 {
        0
    } else {
        l2_dot(white, black, l1w, l1b, l2w, h, k - 1) + activation(
            l1_value(white, black, l1w, l1b, h, k - 1),
        ) * l2w[k - 1]
    }
}

fn l1_neuron(
    white: &Vec<i16>,
    black: &Vec<i16>,
    w: &Vec<i16>,
    h: usize,
    neuron: usize,
) -> (r: i64)
    requires
        h <= 1024,
        neuron < 16,
        white@.len() == 1024,
        black@.len() == 1024,
        w@.len() == 2 * h * 16,
    ensures
        r == l1_dot(white@, black@, w@, h as int, neuron as int, h as int),
        -4_400_000_000_000 <= r <= 4_400_000_000_000,
{
    let mut r: i64 = 0;
    let mut k: usize = 0;
    while k < h
        invariant
            h <= 1024,
            neuron < 16,
            white@.len() == 1024,
            black@.len() == 1024,
            w@.len() == 2 * h * 16,
            k <= h,
            r == l1_dot(white@, black@, w@, h as int, neuron as int, k as int),
            -4_261_478_400 * k <= r <= 4_261_478_400 * k,
        decreases h - k,
    {
        let a: i64 = screlu(white[k] as i64);
        let b: i64 = screlu(black[k] as i64);
        let wa: i64 = w[k * 16 + neuron] as i64;
        let wb: i64 = w[(h + k) * 16 + neuron] as i64;
        proof {
            product_bound(a as int, wa as int);
            product_bound(b as int, wb as int);
        }
        r = r + a * wa + b * wb;
        k = k + 1;
    }
    r
}

fn eval_l2(
    white: &Vec<i16>,
    black: &Vec<i16>,
    l1_weights: &Vec<i16>,
    l1_biases: &Vec<i16>,
    l2_weights: &Vec<i16>,
    l2_bias: i16,
    h: usize,
) -> (v: i32)
    requires
        h <= 1024,
        white@.len() == 1024,
        black@.len() == 1024,
        l1_weights@.len() == 2 * h * 16,
        l1_biases@.len() == 16,
        l2_weights@.len() == 16,
    ensures
        v == centipawns(
            l2_dot(white@, black@, l1_weights@, l1_biases@, l2_weights@, h as int, 16),
            l2_bias as int,
        ),
        -430_000_000 <= v <= 430_000_000,
{
    let mut out: i64 = 0;
    let mut j: usize = 0;
    while j < 16
        invariant
            h <= 1024,
            white@.len() == 1024,
            black@.len() == 1024,
            l1_weights@.len() == 2 * h * 16,
            l1_biases@.len() == 16,
            l2_weights@.len() == 16,
            j <= 16,
            out == l2_dot(
                white@,
                black@,
                l1_weights@,
                l1_biases@,
                l2_weights@,
                h as int,
                j as int,
            ),
            -2_130_739_200 * j <= out <= 2_130_739_200 * j,
        decreases 16 - j,
    {
        let sum: i64 = l1_neuron(white, black, l1_weights, h, j) / 255 + l1_biases[j] as i64;
        let a: i64 = screlu(sum / 64);
        let w: i64 = l2_weights[j] as i64;
        proof {
            product_bound(a as int, w as int);
        }
        out = out + a * w;
        j = j + 1;
    }
    to_centipawns(out, l2_bias)
}

/// The output bucket in use: the last one for every larger number.
pub open spec fn used_bucket(b: int) -> int {
    if b > 7 {
        7
    } else {
        b
    }
}

/// The output of the network in centipawns, as White sees it, from the lanes of
/// both halves.
pub open spec fn white_output(
    n: NnueParams,
    white: Seq<i16>,
    black: Seq<i16>,
    output_bucket: int,
) -> int {
    let h = n.hidden_size as int;
    match n.arch {
        NnueArch::SingleLayer { output_weights, output_bias } => centipawns(
            dot(white, black, output_weights@, 0, h, h),
            output_bias as int,
        ),
        NnueArch::SingleLayerOutBucket { output_weights, output_biases } => {
            let b = used_bucket(output_bucket);
            centipawns(
                dot(white, black, output_weights@, b * (2 * h), h, h),
                output_biases@[b] as int,
            )
        },
        NnueArch::L2Layer { l1_weights, l1_biases, l2_weights, l2_bias } => centipawns(
            l2_dot(white, black, l1_weights@, l1_biases@, l2_weights@, h, 16),
            l2_bias as int,
        ),
    }
}

/// The output of the network in centipawns, as a side sees it.
pub open spec fn output(n: NnueParams, a: Accumulator, side: Color, output_bucket: int) -> int {
    match side {
        Color::White => white_output(n, a.white@, a.black@, output_bucket),
        Color::Black => -white_output(n, a.white@, a.black@, output_bucket),
    }
}

/// The lanes of a position.
pub open spec fn lanes(n: NnueParams, p: Position, c: Color) -> Seq<i16> {
    Seq::new(n.hidden_size as nat, |j: int| lane(n, p, c, j) as i16)
}

/// The output of the network in centipawns for a position, as the side to move
/// sees it.
pub open spec fn network_value(n: NnueParams, p: Position, output_bucket: int) -> int {
    let v = white_output(n, lanes(n, p, Color::White), lanes(n, p, Color::Black), output_bucket);
    match p.side {
        Color::White => v,
        Color::Black => -v,
    }
}

/// Two sequences agree on their first entries.
spec fn agree_to(a: Seq<i16>, b: Seq<i16>, h: int) -> bool {
    forall|j: int| 0 <= j < h ==> #[trigger] a[j] == b[j]
}

proof fn dot_by_lanes(
    a: Seq<i16>,
    b: Seq<i16>,
    c: Seq<i16>,
    d: Seq<i16>,
    w: Seq<i16>,
    start: int,
    h: int,
    k: int,
)
    requires
        agree_to(a, c, h),
        agree_to(b, d, h),
        k <= h,
    ensures
        dot(a, b, w, start, h, k) == dot(c, d, w, start, h, k),
    decreases k,
{
    if k > 0 {
        dot_by_lanes(a, b, c, d, w, start, h, k - 1);
        assert(a[k - 1] == c[k - 1] && b[k - 1] == d[k - 1]);
    }
}

proof fn l1_by_lanes(
    a: Seq<i16>,
    b: Seq<i16>,
    c: Seq<i16>,
    d: Seq<i16>,
    w: Seq<i16>,
    h: int,
    neuron: int,
    k: int,
)
    requires
        agree_to(a, c, h),
        agree_to(b, d, h),
        k <= h,
    ensures
        l1_dot(a, b, w, h, neuron, k) == l1_dot(c, d, w, h, neuron, k),
    decreases k,
{
    if k > 0 {
        l1_by_lanes(a, b, c, d, w, h, neuron, k - 1);
        assert(a[k - 1] == c[k - 1] && b[k - 1] == d[k - 1]);
    }
}

proof fn l2_by_lanes(
    a: Seq<i16>,
    b: Seq<i16>,
    c: Seq<i16>,
    d: Seq<i16>,
    l1w: Seq<i16>,
    l1b: Seq<i16>,
    l2w: Seq<i16>,
    h: int,
    k: int,
)
    requires
        agree_to(a, c, h),
        agree_to(b, d, h),
    ensures
        l2_dot(a, b, l1w, l1b, l2w, h, k) == l2_dot(c, d, l1w, l1b, l2w, h, k),
    decreases k,
{
    if k > 0 {
        l2_by_lanes(a, b, c, d, l1w, l1b, l2w, h, k - 1);
        l1_by_lanes(a, b, c, d, l1w, h, k - 1, h);
    }
}

/// What the network computes from an accumulator that shows a position is its
/// output for the position, however the accumulator came about.
pub proof fn output_of_shown(n: NnueParams, a: Accumulator, p: Position, output_bucket: int)
    requires
        a.shows(n, p),
    ensures
        output(n, a, p.side, output_bucket) == network_value(n, p, output_bucket),
{
    let h = n.hidden_size as int;
    let w = lanes(n, p, Color::White);
    let b = lanes(n, p, Color::Black);
    assert forall|j: int| 0 <= j < h implies #[trigger] a.white@[j] == w[j] by {
        assert(a.half(Color::White)[j] == lane(n, p, Color::White, j));
    }
    assert forall|j: int| 0 <= j < h implies #[trigger] a.black@[j] == b[j] by {
        assert(a.half(Color::Black)[j] == lane(n, p, Color::Black, j));
    }
    match n.arch {
        NnueArch::SingleLayer { output_weights, output_bias } => {
            dot_by_lanes(a.white@, a.black@, w, b, output_weights@, 0, h, h);
        },
        NnueArch::SingleLayerOutBucket { output_weights, output_biases } => {
            let start = used_bucket(output_bucket) * (2 * h);
            dot_by_lanes(a.white@, a.black@, w, b, output_weights@, start, h, h);
        },
        NnueArch::L2Layer { l1_weights, l1_biases, l2_weights, l2_bias } => {
            l2_by_lanes(
                a.white@,
                a.black@,
                w,
                b,
                l1_weights@,
                l1_biases@,
                l2_weights@,
                h,
                16,
            );
        },
    }
}

// ---- The engine's network ----
/// The network in use, if any.
pub struct Nnue {
    pub params: Option<Arc<NnueParams>>,
}

impl Nnue {
    /// A loaded network is well-formed. Whether it can score every position is told
    /// by `usable`.
    pub open spec fn wf(&self) -> bool {
        match self.params {
            Some(n) => n.wf(),
            None => true,
        }
    }

    /// The network can score every position.
    pub open spec fn usable(&self) -> bool {
        match self.params {
            Some(n) => n.wf() && n.covers_layout(),
            None => false,
        }
    }

    pub open spec fn net(&self) -> NnueParams {
        *self.params.unwrap()
    }

    pub fn new() -> (n: Nnue)
        ensures
            n.params is None,
    {
        Nnue { params: None }
    }

    pub fn is_loaded(&self) -> (b: bool)
        ensures
            b == self.params is Some,
    {
        self.params.is_some()
    }

    /// The network can score every position.
    pub fn is_usable(&self) -> (b: bool)
        requires
            self.wf(),
        ensures
            b == self.usable(),
    {
        match &self.params {
            Some(n) => n.num_buckets == 1 || n.num_buckets >= 4,
            None => false,
        }
    }

    pub fn is_bucketed(&self) -> (b: bool)
        ensures
            b == (self.params is Some && self.net().num_buckets > 1),
    {
        match &self.params {
            Some(n) => n.num_buckets > 1,
            None => false,
        }
    }

    /// A move can change threat features anywhere on the board.
    pub fn needs_full_refresh_per_move(&self) -> (b: bool)
        ensures
            b == (self.params is Some && self.net().has_threats),
    {
        match &self.params {
            Some(n) => n.has_threats,
            None => false,
        }
    }

    /// Computes the accumulator of a position from scratch.
    pub fn refresh(&self, pos: &Position, acc: &mut Accumulator)
        requires
            self.usable(),
            pos.wf_boards(),
            self.net().num_buckets > 1 ==> pos.king_square(Color::White) < 64 && pos.king_square(
                Color::Black,
            ) < 64,
            old(acc).wf(),
        ensures
            final(acc).shows(self.net(), *pos),
            final(acc).computed,
    {
        if let Some(n) = &self.params {
            let w: (Vec<i16>, (usize, usize)) = refresh_half(n, pos, Color::White);
            let b: (Vec<i16>, (usize, usize)) = refresh_half(n, pos, Color::Black);
            acc.white = w.0;
            acc.white_kb = w.1;
            acc.black = b.0;
            acc.black_kb = b.1;
            acc.computed = true;
        }
    }

    /// The features of a delta can be applied to an accumulator.
    pub open spec fn applies(&self, parent: Accumulator, delta: FeatureDelta) -> bool {
        let n = self.net();
        &&& parent.wf()
        &&& forall|c: Color| #[trigger]
            fit_rows(n, delta.removed@, delta_offset(n, parent, c), delta_flip(n, parent, c))
        &&& forall|c: Color| #[trigger]
            fit_rows(n, delta.added@, delta_offset(n, parent, c), delta_flip(n, parent, c))
        &&& n.num_buckets > 1 ==> parent.white_kb.0 <= 1_000_000 && parent.black_kb.0 <= 1_000_000
    }

    /// Updates an accumulator by the features that a move changes. The buckets
    /// of the kings must stay the same.
    pub fn update_inc(&self, parent: &Accumulator, child: &mut Accumulator, delta: &FeatureDelta)
        requires
            self.usable(),
            self.applies(*parent, *delta),
            old(child).wf(),
        ensures
            final(child).wf(),
            final(child).computed,
            final(child).white_kb == parent.white_kb,
            final(child).black_kb == parent.black_kb,
            updated(self.net(), *parent, *final(child), *delta, Color::White),
            updated(self.net(), *parent, *final(child), *delta, Color::Black),
    {
        if let Some(n) = &self.params {
            let wkb: (usize, usize) = if n.num_buckets > 1 {
                parent.white_kb
            } else {
                (0, 0)
            };
            let bkb: (usize, usize) = if n.num_buckets > 1 {
                parent.black_kb
            } else {
                (0, 0)
            };
            assert(fit_rows(
                **n,
                delta.removed@,
                delta_offset(**n, *parent, Color::White),
                delta_flip(**n, *parent, Color::White),
            ));
            assert(fit_rows(
                **n,
                delta.removed@,
                delta_offset(**n, *parent, Color::Black),
                delta_flip(**n, *parent, Color::Black),
            ));
            assert(fit_rows(
                **n,
                delta.added@,
                delta_offset(**n, *parent, Color::White),
                delta_flip(**n, *parent, Color::White),
            ));
            assert(fit_rows(
                **n,
                delta.added@,
                delta_offset(**n, *parent, Color::Black),
                delta_flip(**n, *parent, Color::Black),
            ));
            child.white = apply_features(n, &parent.white, delta, Color::White, wkb.0, wkb.1);
            child.black = apply_features(n, &parent.black, delta, Color::Black, bkb.0, bkb.1);
            child.white_kb = parent.white_kb;
            child.black_kb = parent.black_kb;
            child.computed = true;
        }
    }

    /// Copies the lanes in use, for a move that moves no piece.
    pub fn copy_acc(&self, parent: &Accumulator, child: &mut Accumulator)
        requires
            self.usable(),
            parent.wf(),
            old(child).wf(),
        ensures
            final(child).wf(),
            forall|j: int|
                0 <= j < self.net().hidden_size ==> #[trigger] final(child).white@[j]
                    == parent.white@[j],
            forall|j: int|
                0 <= j < self.net().hidden_size ==> #[trigger] final(child).black@[j]
                    == parent.black@[j],
            final(child).white_kb == parent.white_kb,
            final(child).black_kb == parent.black_kb,
            final(child).computed == parent.computed,
    {
        if let Some(n) = &self.params {
            child.white = copy_lanes(&parent.white, n.hidden_size);
            child.black = copy_lanes(&parent.black, n.hidden_size);
            child.white_kb = parent.white_kb;
            child.black_kb = parent.black_kb;
            child.computed = parent.computed;
        }
    }

    /// The network's score in centipawns for the side to move.
    pub fn evaluate(&self, acc: &Accumulator, side: Color, output_bucket: usize) -> (v: i32)
        requires
            self.params is Some,
            self.wf(),
            acc.wf(),
        ensures
            v == output(self.net(), *acc, side, output_bucket as int),
            -430_000_000 <= v <= 430_000_000,
    {
        match &self.params {
            Some(n) => {
                let h: usize = n.hidden_size;
                let raw: i32 = match &n.arch {
                    NnueArch::SingleLayer { output_weights, output_bias } => to_centipawns(
                        screlu_dot(&acc.white, &acc.black, output_weights, 0, h),
                        *output_bias,
                    ),
                    NnueArch::SingleLayerOutBucket { output_weights, output_biases } => {
                        let b: usize = if output_bucket > 7 {
                            7
                        } else {
                            output_bucket
                        };
                        assert(b * (2 * h) + 2 * h <= 8 * (2 * h)) by (nonlinear_arith)
                            requires
                                b <= 7,
                        ;
                        to_centipawns(
                            screlu_dot(&acc.white, &acc.black, output_weights, b * (2 * h), h),
                            output_biases[b],
                        )
                    },
                    NnueArch::L2Layer { l1_weights, l1_biases, l2_weights, l2_bias } => eval_l2(
                        &acc.white,
                        &acc.black,
                        l1_weights,
                        l1_biases,
                        l2_weights,
                        *l2_bias,
                        h,
                    ),
                };
                match side {
                    Color::White => raw,
                    Color::Black => -raw,
                }
            },
            None => 0,
        }
    }
}

impl Clone for Nnue {
    fn clone(&self) -> (n: Nnue)
        ensures
            n == *self,
    {
        match &self.params {
            Some(p) => Nnue { params: Some(Arc::clone(p)) },
            None => Nnue { params: None },
        }
    }
}

/// Where the features of a perspective start for an update.
pub open spec fn delta_offset(n: NnueParams, parent: Accumulator, c: Color) -> int {
    if n.num_buckets > 1 {
        parent.kb(c).0 as int
    } else {
        0
    }
}

/// 7 if the features of a perspective are mirrored for an update.
pub open spec fn delta_flip(n: NnueParams, parent: Accumulator, c: Color) -> int {
    if n.num_buckets > 1 {
        parent.kb(c).1 as int
    } else {
        0
    }
}

/// The lanes of a perspective are those of the parent without the removed and
/// with the added features.
pub open spec fn updated(
    n: NnueParams,
    parent: Accumulator,
    child: Accumulator,
    delta: FeatureDelta,
    c: Color,
) -> bool {
    let o = delta_offset(n, parent, c);
    let f = delta_flip(n, parent, c);
    forall|j: int|
        0 <= j < n.hidden_size ==> #[trigger] child.half(c)[j] == wrap16(
            parent.half(c)[j] - features_sum(
                n,
                delta.removed@,
                c,
                o,
                f,
                j,
                delta.removed@.len() as int,
            ) + features_sum(n, delta.added@, c, o, f, j, delta.added@.len() as int),
        )
}

/// The features of a move can be applied to the accumulator of the position
/// before the move.
pub proof fn move_applies(net: Nnue, a: Accumulator, q: Position, mv: Move, d: FeatureDelta)
    requires
        net.usable(),
        a.shows(net.net(), q),
        net.net().num_buckets > 1 ==> q.king_square(Color::White) < 64 && q.king_square(
            Color::Black,
        ) < 64,
        names_all(d.removed@, taken_off(q.mailbox@, q.side, mv)),
        names_all(d.added@, put_on(q.mailbox@, q.side, mv)),
    ensures
        net.applies(a, d),
{
    let n = net.net();
    assert(forall|i: int|
        0 <= i < d.removed@.len() ==> names(
            #[trigger] d.removed@[i],
            taken_off(q.mailbox@, q.side, mv)[i],
        ));
    assert(forall|i: int|
        0 <= i < d.added@.len() ==> names(
            #[trigger] d.added@[i],
            put_on(q.mailbox@, q.side, mv)[i],
        ));
    crate::bitboard::lowest_facts(q.pieces@[5] & q.colors@[0]);
    crate::bitboard::lowest_facts(q.pieces@[5] & q.colors@[1]);
    placed_fits(n, q, Color::White, 0);
    placed_fits(n, q, Color::Black, 0);
    placed_fits(n, q, Color::White, 767);
    placed_fits(n, q, Color::Black, 767);
    rows_cover(n, q, Color::White);
    rows_cover(n, q, Color::Black);
    assert forall|c: Color| #[trigger]
        fit_rows(n, d.removed@, delta_offset(n, a, c), delta_flip(n, a, c)) by {
        match c {
            Color::White => {},
            Color::Black => {},
        }
    }
    assert forall|c: Color| #[trigger]
        fit_rows(n, d.added@, delta_offset(n, a, c), delta_flip(n, a, c)) by {
        match c {
            Color::White => {},
            Color::Black => {},
        }
    }
}

proof fn rows_cover(n: NnueParams, p: Position, c: Color)
    requires
        n.wf(),
        n.covers_layout(),
        n.num_buckets > 1 ==> 0 <= p.king_square(c) < 64,
    ensures
        n.offset(p, c) + 768 <= n.rows(),
{
    let stride = n.features_per_bucket as int;
    let b = n.num_buckets as int;
    if b > 1 {
        let k = bucket(p.king_square(c));
        assert(stride * k + stride <= stride * b) by (nonlinear_arith)
            requires
                0 <= k <= 3,
                b >= 4,
                768 <= stride,
        ;
    } else {
        assert(stride * b == stride) by (nonlinear_arith)
            requires
                b == 1,
        ;
    }
}

/// The incremental update gives what a computation from scratch gives: if an
/// accumulator shows a position, and the king buckets stay the same, then the
/// accumulator that is updated by a move shows the position after the move.
pub proof fn incremental_equals_refresh(
    n: NnueParams,
    parent: Accumulator,
    child: Accumulator,
    delta: FeatureDelta,
    q: Position,
    mv: Move,
    p: Position,
    u: UndoInfo,
)
    requires
        n.wf(),
        !n.reads_threats(),
        parent.shows(n, q),
        made(q, mv, p, u),
        mv.flag() != 6,
        mv.flag() != 7,
        names_all(delta.removed@, taken_off(q.mailbox@, q.side, mv)),
        names_all(delta.added@, put_on(q.mailbox@, q.side, mv)),
        child.wf(),
        child.white_kb == parent.white_kb,
        child.black_kb == parent.black_kb,
        updated(n, parent, child, delta, Color::White),
        updated(n, parent, child, delta, Color::Black),
        forall|c: Color| #[trigger] n.offset(p, c) == n.offset(q, c),
        forall|c: Color| #[trigger] n.flip(p, c) == n.flip(q, c),
    ensures
        child.shows(n, p),
{
    update_shows_half(n, parent, child, delta, q, mv, p, u, Color::White);
    update_shows_half(n, parent, child, delta, q, mv, p, u, Color::Black);
}

proof fn update_shows_half(
    n: NnueParams,
    parent: Accumulator,
    child: Accumulator,
    delta: FeatureDelta,
    q: Position,
    mv: Move,
    p: Position,
    u: UndoInfo,
    c: Color,
)
    requires
        n.wf(),
        !n.reads_threats(),
        parent.shows_half(n, q, c),
        made(q, mv, p, u),
        mv.flag() != 6,
        mv.flag() != 7,
        names_all(delta.removed@, taken_off(q.mailbox@, q.side, mv)),
        names_all(delta.added@, put_on(q.mailbox@, q.side, mv)),
        child.kb(c) == parent.kb(c),
        updated(n, parent, child, delta, c),
        n.offset(p, c) == n.offset(q, c),
        n.flip(p, c) == n.flip(q, c),
    ensures
        child.shows_half(n, p, c),
{
    let o = delta_offset(n, parent, c);
    let f = delta_flip(n, parent, c);
    assert forall|j: int| 0 <= j < n.hidden_size implies #[trigger] child.half(c)[j] == lane(
        n,
        p,
        c,
        j,
    ) by {
        assert(parent.half(c)[j] == lane(n, q, c, j));
        named_sums(n, delta.removed@, taken_off(q.mailbox@, q.side, mv), c, o, f, j);
        named_sums(n, delta.added@, put_on(q.mailbox@, q.side, mv), c, o, f, j);
        move_changes_sum(n, q.mailbox@, q.side, mv, c, o, f, j);
        let a = list_sum(n, taken_off(q.mailbox@, q.side, mv), c, o, f, j);
        let b = list_sum(n, put_on(q.mailbox@, q.side, mv), c, o, f, j);
        wrap_steps(lane_sum(n, q, c, j), b - a);
    }
}

} // verus!
