//! Network files: the layout is found by the size of the file or by its header.

use crate::nnue::{Nnue, NnueArch, NnueParams};
use crate::num::clamped;
use crate::text::{decimal, push_decimal, push_text};
use std::sync::Arc;
use vstd::prelude::*;

verus! {

/// The output layers of a network file.
#[derive(Clone, Copy, PartialEq, Eq, Structural, Debug)]
pub enum OutputKind {
    Single,
    OutBuckets,
    TwoLayers,
}

/// The layout of a network.
#[derive(Clone, Copy, PartialEq, Eq, Structural, Debug)]
pub struct NetLayout {
    pub hidden: usize,
    pub buckets: usize,
    pub threats: bool,
    pub output: OutputKind,
}

impl NetLayout {
    pub open spec fn wf(&self) -> bool {
        0 < self.hidden <= 1024 && 1 <= self.buckets <= 16
    }

    pub open spec fn stride(&self) -> int {
        if self.threats {
            896
        } else {
            768
        }
    }

    /// How many weights of features the file holds.
    pub open spec fn weights(&self) -> int {
        self.stride() * self.buckets * self.hidden
    }

    /// How many bytes the output layers take.
    pub open spec fn output_bytes(&self) -> int {
        match self.output {
            OutputKind::Single => 4 * self.hidden + 2,
            OutputKind::OutBuckets => 32 * self.hidden + 16,
            OutputKind::TwoLayers => 64 * self.hidden + 66,
        }
    }

    /// How many bytes a file of this layout takes.
    pub open spec fn bytes(&self) -> int {
        2 * self.weights() + 2 * self.hidden + self.output_bytes()
    }
}

/// The next multiple of 64.
pub open spec fn padded(n: int) -> int {
    (n + 63) / 64 * 64
}

/// The hidden sizes in the order in which they are tried.
pub open spec fn hidden_choice(i: int) -> int {
    256 + 128 * i
}

/// The numbers of king buckets in the order in which they are tried.
pub open spec fn bucket_choice(i: int) -> int {
    if i == 0 {
        1
    } else if i == 1 {
        2
    } else if i == 2 {
        4
    } else if i == 3 {
        8
    } else if i == 4 {
        10
    } else {
        16
    }
}

/// The layouts in the order in which they are tried: plain, with king buckets,
/// with output buckets, with threats, with two layers.
pub open spec fn candidate(k: int) -> NetLayout {
    if k < 7 {
        NetLayout {
            hidden: hidden_choice(k) as usize,
            buckets: 1,
            threats: false,
            output: OutputKind::Single,
        }
    } else if k < 42 {
        NetLayout {
            hidden: hidden_choice((k - 7) / 5) as usize,
            buckets: bucket_choice(1 + (k - 7) % 5) as usize,
            threats: false,
            output: OutputKind::Single,
        }
    } else if k < 84 {
        NetLayout {
            hidden: hidden_choice((k - 42) / 6) as usize,
            buckets: bucket_choice((k - 42) % 6) as usize,
            threats: false,
            output: OutputKind::OutBuckets,
        }
    } else if k < 126 {
        NetLayout {
            hidden: hidden_choice((k - 84) / 6) as usize,
            buckets: bucket_choice((k - 84) % 6) as usize,
            threats: true,
            output: OutputKind::Single,
        }
    } else {
        NetLayout {
            hidden: hidden_choice(k - 126) as usize,
            buckets: 1,
            threats: false,
            output: OutputKind::TwoLayers,
        }
    }
}

/// A file of `len` bytes can have this layout, with or without padding.
pub open spec fn has_size(l: NetLayout, len: int) -> bool {
    len == l.bytes() || len == padded(l.bytes())
}

/// The layout is the first one that a file of `len` bytes can have.
pub open spec fn is_layout_of(l: NetLayout, len: int, k: int) -> bool {
    &&& 0 <= k < 133
    &&& l == candidate(k)
    &&& has_size(l, len)
    &&& forall|i: int| 0 <= i < k ==> !has_size(#[trigger] candidate(i), len)
}

fn bucket_number(i: usize) -> (b: usize)
    requires
        i < 6,
    ensures
        b == bucket_choice(i as int),
        1 <= b <= 16,
{
    if i == 0 {
        1
    } else if i == 1 {
        2
    } else if i == 2 {
        4
    } else if i == 3 {
        8
    } else if i == 4 {
        10
    } else {
        16
    }
}

fn candidate_of(k: usize) -> (l: NetLayout)
    requires
        k < 133,
    ensures
        l == candidate(k as int),
        l.wf(),
{
    if k < 7 {
        NetLayout { hidden: 256 + 128 * k, buckets: 1, threats: false, output: OutputKind::Single }
    } else if k < 42 {
        NetLayout {
            hidden: 256 + 128 * ((k - 7) / 5),
            buckets: bucket_number(1 + (k - 7) % 5),
            threats: false,
            output: OutputKind::Single,
        }
    } else if k < 84 {
        NetLayout {
            hidden: 256 + 128 * ((k - 42) / 6),
            buckets: bucket_number((k - 42) % 6),
            threats: false,
            output: OutputKind::OutBuckets,
        }
    } else if k < 126 {
        NetLayout {
            hidden: 256 + 128 * ((k - 84) / 6),
            buckets: bucket_number((k - 84) % 6),
            threats: true,
            output: OutputKind::Single,
        }
    } else {
        NetLayout {
            hidden: 256 + 128 * (k - 126),
            buckets: 1,
            threats: false,
            output: OutputKind::TwoLayers,
        }
    }
}

fn weight_count(l: &NetLayout) -> (n: usize)
    requires
        l.wf(),
    ensures
        n == l.weights(),
        n <= 14_680_064,
{
    let stride: usize = if l.threats {
        896
    } else {
        768
    };
    let b: usize = l.buckets;
    let h: usize = l.hidden;
    assert(0 <= stride * b <= 14336) by (nonlinear_arith)
        requires
            stride <= 896,
            b <= 16,
    ;
    let rows: usize = stride * b;
    assert(0 <= rows * h <= 14_680_064) by (nonlinear_arith)
        requires
            rows <= 14336,
            h <= 1024,
    ;
    rows * h
}

fn size_of_layout(l: &NetLayout) -> (n: usize)
    requires
        l.wf(),
    ensures
        n == l.bytes(),
        n <= 30_000_000,
{
    let out: usize = match l.output {
        OutputKind::Single => 4 * l.hidden + 2,
        OutputKind::OutBuckets => 32 * l.hidden + 16,
        OutputKind::TwoLayers => 64 * l.hidden + 66,
    };
    2 * weight_count(l) + 2 * l.hidden + out
}

/// The layout of a file by its size.
pub fn detect_layout(len: usize) -> (r: Option<NetLayout>)
    ensures
        match r {
            Some(l) => l.wf() && exists|k: int| #[trigger] is_layout_of(l, len as int, k),
            None => forall|k: int| 0 <= k < 133 ==> !has_size(#[trigger] candidate(k), len as int),
        },
{
    let mut k: usize = 0;
    while k < 133
        invariant
            k <= 133,
            forall|i: int| 0 <= i < k ==> !has_size(#[trigger] candidate(i), len as int),
        decreases 133 - k,
    {
        let l: NetLayout = candidate_of(k);
        let n: usize = size_of_layout(&l);
        if len == n || len == (n + 63) / 64 * 64 {
            assert(is_layout_of(l, len as int, k as int));
            return Some(l);
        }
        k = k + 1;
    }
    None
}

// ---- Reading numbers ----
/// The signed 16-bit number at an offset, lowest byte first.
pub open spec fn le16(d: Seq<u8>, off: int) -> int {
    let v = d[off] + 256 * d[off + 1];
    if v >= 32768 {
        v - 65536
    } else {
        v
    }
}

/// The unsigned 32-bit number at an offset, lowest byte first.
pub open spec fn le32(d: Seq<u8>, off: int) -> int {
    d[off] + 256 * d[off + 1] + 65536 * d[off + 2] + 16777216 * d[off + 3]
}

/// `n` signed 16-bit numbers from an offset on.
pub open spec fn numbers(d: Seq<u8>, off: int, n: int) -> Seq<i16> {
    Seq::new(n as nat, |i: int| le16(d, off + 2 * i) as i16)
}

fn read_le16(d: &[u8], off: usize) -> (v: i16)
    requires
        off + 2 <= d@.len(),
    ensures
        v == le16(d@, off as int),
{
    let v: i32 = d[off] as i32 + 256 * (d[off + 1] as i32);
    if v >= 32768 {
        (v - 65536) as i16
    } else {
        v as i16
    }
}

fn read_le32(d: &[u8], off: usize) -> (v: u32)
    requires
        off + 4 <= d@.len(),
    ensures
        v == le32(d@, off as int),
{
    d[off] as u32 + 256 * (d[off + 1] as u32) + 65536 * (d[off + 2] as u32) + 16777216 * (d[off
        + 3] as u32)
}

fn read_numbers(d: &[u8], off: usize, n: usize) -> (v: Vec<i16>)
    requires
        off + 2 * n <= d@.len(),
    ensures
        v@ == numbers(d@, off as int, n as int),
        v@.len() == n,
{
    let len: usize = d.len();
    let mut v: Vec<i16> = Vec::new();
    let mut i: usize = 0;
    while i < n
        invariant
            off + 2 * n <= len,
            len == d@.len(),
            i <= n,
            v@.len() == i,
            forall|k: int| 0 <= k < i ==> #[trigger] v@[k] == le16(d@, off + 2 * k),
        decreases n - i,
    {
        v.push(read_le16(d, off + 2 * i));
        i = i + 1;
    }
    assert(v@ =~= numbers(d@, off as int, n as int));
    v
}

// ---- Reading a network ----
/// The network holds the numbers of a file from an offset on.
pub open spec fn reads(n: NnueParams, d: Seq<u8>, start: int, l: NetLayout) -> bool {
    let h = l.hidden as int;
    let w = l.weights();
    let bias_at = start + 2 * w;
    let out_at = bias_at + 2 * h;
    &&& n.hidden_size == l.hidden
    &&& n.num_buckets == l.buckets
    &&& n.features_per_bucket == l.stride()
    &&& n.has_threats == l.threats
    &&& n.feature_weights@ == numbers(d, start, w)
    &&& n.feature_biases@ == numbers(d, bias_at, h)
    &&& reads_output(n.arch, d, out_at, l)
}

/// The output layers hold the numbers of a file from an offset on.
pub open spec fn reads_output(a: NnueArch, d: Seq<u8>, at: int, l: NetLayout) -> bool {
    let h = l.hidden as int;
    match l.output {
        OutputKind::Single => match a {
            NnueArch::SingleLayer { output_weights, output_bias } => output_weights@ == numbers(
                d,
                at,
                2 * h,
            ) && output_bias == le16(d, at + 4 * h),
            _ => false,
        },
        OutputKind::OutBuckets => match a {
            NnueArch::SingleLayerOutBucket { output_weights, output_biases } => output_weights@
                == numbers(d, at, 16 * h) && output_biases@ == numbers(d, at + 32 * h, 8),
            _ => false,
        },
        OutputKind::TwoLayers => match a {
            NnueArch::L2Layer { l1_weights, l1_biases, l2_weights, l2_bias } => l1_weights@
                == numbers(d, at, 32 * h) && l1_biases@ == numbers(d, at + 64 * h, 16)
                && l2_weights@ == numbers(d, at + 64 * h + 32, 16) && l2_bias == le16(
                d,
                at + 64 * h + 64,
            ),
            _ => false,
        },
    }
}

fn read_output(d: &[u8], at: usize, l: &NetLayout) -> (a: NnueArch)
    requires
        l.wf(),
        at + l.output_bytes() <= d@.len(),
    ensures
        reads_output(a, d@, at as int, *l),
        a.wf(l.hidden as int),
{
    let h: usize = l.hidden;
    let len: usize = d.len();
    assert(at + l.output_bytes() <= len);
    match l.output {
        OutputKind::Single => {
            let output_weights: Vec<i16> = read_numbers(d, at, 2 * h);
            let output_bias: i16 = read_le16(d, at + 4 * h);
            NnueArch::SingleLayer { output_weights, output_bias }
        },
        OutputKind::OutBuckets => {
            let output_weights: Vec<i16> = read_numbers(d, at, 16 * h);
            let output_biases: Vec<i16> = read_numbers(d, at + 32 * h, 8);
            NnueArch::SingleLayerOutBucket { output_weights, output_biases }
        },
        OutputKind::TwoLayers => {
            let l1_weights: Vec<i16> = read_numbers(d, at, 32 * h);
            let l1_biases: Vec<i16> = read_numbers(d, at + 64 * h, 16);
            let l2_weights: Vec<i16> = read_numbers(d, at + 64 * h + 32, 16);
            let l2_bias: i16 = read_le16(d, at + 64 * h + 64);
            NnueArch::L2Layer { l1_weights, l1_biases, l2_weights, l2_bias }
        },
    }
}

/// Reads a network of a known layout.
fn read_network(d: &[u8], l: &NetLayout) -> (n: NnueParams)
    requires
        l.wf(),
        l.bytes() <= d@.len(),
    ensures
        n.wf(),
        reads(n, d@, 0, *l),
{
    let w: usize = weight_count(l);
    let h: usize = l.hidden;
    let feature_weights: Vec<i16> = read_numbers(d, 0, w);
    let feature_biases: Vec<i16> = read_numbers(d, 2 * w, h);
    let arch: NnueArch = read_output(d, 2 * w + 2 * h, l);
    NnueParams {
        feature_weights,
        feature_biases,
        hidden_size: h,
        num_buckets: l.buckets,
        features_per_bucket: if l.threats {
            896
        } else {
            768
        },
        has_threats: l.threats,
        arch,
    }
}

// ---- The format with a header ----
/// The file starts with the letters "CLNN".
pub open spec fn has_header(d: Seq<u8>) -> bool {
    d.len() >= 4 && d[0] == 67 && d[1] == 76 && d[2] == 78 && d[3] == 78
}

/// The hidden size that the header gives.
pub open spec fn header_hidden(d: Seq<u8>) -> int {
    le32(d, 8)
}

/// The header is complete and supported: version 1, at most 1024 hidden lanes.
pub open spec fn header_supported(d: Seq<u8>) -> bool {
    d.len() >= 12 && le32(d, 4) == 1 && header_hidden(d) <= 1024
}

/// How many bytes a file with a header takes: the header, the weights and a
/// 32-bit output bias.
pub open spec fn header_bytes(h: int) -> int {
    12 + 1536 * h + 2 * h + 4 * h + 4
}

/// A supported header is followed by all the numbers that it announces.
pub open spec fn header_complete(d: Seq<u8>) -> bool {
    has_header(d) && header_supported(d) ==> d.len() >= header_bytes(header_hidden(d))
}

/// Tests whether a supported header is followed by all its numbers.
pub fn is_complete(d: &[u8]) -> (b: bool)
    ensures
        b == header_complete(d@),
{
    let len: usize = d.len();
    if len < 12 || d[0] != 67 || d[1] != 76 || d[2] != 78 || d[3] != 78 {
        return true;
    }
    let version: u32 = read_le32(d, 4);
    let hidden: u32 = read_le32(d, 8);
    version != 1 || hidden > 1024 || len as u64 >= 16 + 1542 * hidden as u64
}

/// The network holds the numbers of a file with a header.
pub open spec fn reads_with_header(n: NnueParams, d: Seq<u8>) -> bool {
    let h = header_hidden(d);
    let bias = le32(d, 12 + 1542 * h);
    let signed = if bias >= 0x8000_0000 {
        bias - 0x1_0000_0000
    } else {
        bias
    };
    &&& n.hidden_size == h
    &&& n.num_buckets == 1
    &&& n.features_per_bucket == 768
    &&& !n.has_threats
    &&& n.feature_weights@ == numbers(d, 12, 768 * h)
    &&& n.feature_biases@ == numbers(d, 12 + 1536 * h, h)
    &&& match n.arch {
        NnueArch::SingleLayer { output_weights, output_bias } => output_weights@ == numbers(
            d,
            12 + 1538 * h,
            2 * h,
        ) && output_bias == clamped(signed, -32768, 32767),
        _ => false,
    }
}

fn read_with_header(d: &[u8]) -> (n: NnueParams)
    requires
        has_header(d@),
        header_supported(d@),
        header_complete(d@),
    ensures
        n.wf(),
        reads_with_header(n, d@),
{
    let h: usize = read_le32(d, 8) as usize;
    let feature_weights: Vec<i16> = read_numbers(d, 12, 768 * h);
    let feature_biases: Vec<i16> = read_numbers(d, 12 + 1536 * h, h);
    let output_weights: Vec<i16> = read_numbers(d, 12 + 1538 * h, 2 * h);
    let raw: u32 = read_le32(d, 12 + 1542 * h);
    let output_bias: i16 = if raw >= 0x8000_0000 {
        let v: i64 = raw as i64 - 0x1_0000_0000;
        if v < -32768 {
            -32768
        } else {
            v as i16
        }
    } else if raw > 32767 {
        32767
    } else {
        raw as i16
    };
    NnueParams {
        feature_weights,
        feature_biases,
        hidden_size: h,
        num_buckets: 1,
        features_per_bucket: 768,
        has_threats: false,
        arch: NnueArch::SingleLayer { output_weights, output_bias },
    }
}

// ---- Loading ----
/// Why a network could not be loaded.
#[derive(Clone, Copy, PartialEq, Eq, Structural, Debug)]
pub enum NetError {
    /// The header is cut off.
    TooSmall,
    /// The version or the hidden size in the header is not supported.
    Unsupported { version: u32, hidden: u32 },
    /// No layout has this size.
    UnknownFormat { size: usize },
}

impl NetError {
    pub open spec fn message(&self) -> Seq<char> {
        match *self {
            NetError::TooSmall => "CLNN file too small"@,
            NetError::Unsupported { version, hidden } => "Unsupported version "@ + decimal(
                version as nat,
            ) + " or hidden size "@ + decimal(hidden as nat),
            NetError::UnknownFormat { size } => "Unknown NNUE format (size: "@ + decimal(
                size as nat,
            ) + " bytes)"@,
        }
    }

    pub fn text(&self) -> (t: String)
        ensures
            t@ == self.message(),
    {
        let mut t: String = String::new();
        match *self {
            NetError::TooSmall => {
                push_text(&mut t, "CLNN file too small");
            },
            NetError::Unsupported { version, hidden } => {
                push_text(&mut t, "Unsupported version ");
                push_decimal(&mut t, version as u64);
                push_text(&mut t, " or hidden size ");
                push_decimal(&mut t, hidden as u64);
            },
            NetError::UnknownFormat { size } => {
                push_text(&mut t, "Unknown NNUE format (size: ");
                push_decimal(&mut t, size as u64);
                push_text(&mut t, " bytes)");
            },
        }
        assert(t@ =~= self.message());
        t
    }
}

/// The file holds this network: read by its header if it has one, otherwise by
/// the layout that its size tells.
pub open spec fn loads(d: Seq<u8>, n: NnueParams) -> bool {
    if has_header(d) {
        header_supported(d) && reads_with_header(n, d)
    } else {
        exists|l: NetLayout, k: int| #[trigger] is_layout_of(l, d.len() as int, k) && reads(n, d, 0, l)
    }
}

/// The file is refused for this reason.
pub open spec fn refused_for(d: Seq<u8>, e: NetError) -> bool {
    match e {
        NetError::TooSmall => has_header(d) && d.len() < 12,
        NetError::Unsupported { version, hidden } => has_header(d) && d.len() >= 12
            && !header_supported(d) && version == le32(d, 4) && hidden == le32(d, 8),
        NetError::UnknownFormat { size } => !has_header(d) && size == d.len() && forall|k: int|
            0 <= k < 133 ==> !has_size(#[trigger] candidate(k), d.len() as int),
    }
}

impl Nnue {
    /// Loads a network from the bytes of a file. A file with a header is read by
    /// its header, any other by its size.
    pub fn load_bytes(&mut self, data: &[u8]) -> (r: Result<(), NetError>)
        requires
            header_complete(data@),
        ensures
            r is Ok ==> final(self).params is Some && final(self).wf(),
            r is Err ==> *final(self) == *old(self),
            match r {
                Ok(_) => loads(data@, final(self).net()),
                Err(e) => refused_for(data@, e),
            },
    {
        let len: usize = data.len();
        if len >= 4 && data[0] == 67 && data[1] == 76 && data[2] == 78 && data[3] == 78 {
            if len < 12 {
                return Err(NetError::TooSmall);
            }
            let version: u32 = read_le32(data, 4);
            let hidden: u32 = read_le32(data, 8);
            if version != 1 || hidden > 1024 {
                return Err(NetError::Unsupported { version, hidden });
            }
            let n: NnueParams = read_with_header(data);
            self.params = Some(Arc::new(n));
            return Ok(());
        }
        match detect_layout(len) {
            Some(l) => {
                let n: NnueParams = read_network(data, &l);
                self.params = Some(Arc::new(n));
                Ok(())
            },
            None => Err(NetError::UnknownFormat { size: len }),
        }
    }
}

} // verus!
