//! Late move reductions.

use crate::logs::{ln_of, ln_units};
use crate::num::{at_least, at_most, clamped, tdiv};
use crate::tune::{get, Tunables, LMR_DIVISOR, LMR_HIST_DIV};
use vstd::prelude::*;

verus! {

/// The base reduction: the product of the logarithms of depth and move number
/// over the divisor, which is in hundredths.
pub open spec fn base_reduction(d: int, m: int, divisor: int) -> int {
    if d == 0 || m == 0 {
        0
    } else {
        ln_units(d) * ln_units(m) * 100 / (divisor * 0x100_0000_0000_0000)
    }
}

/// The base reductions by depth and move number, 128 of each.
pub struct LmrTable {
    pub table: Vec<i32>,
}

impl LmrTable {
    pub open spec fn wf(&self) -> bool {
        &&& self.table@.len() == 16384
        &&& forall|i: int| 0 <= i < 16384 ==> 0 <= #[trigger] self.table@[i] <= 1_000_000
    }

    /// The table holds the base reductions for a divisor.
    pub open spec fn holds(&self, divisor: int) -> bool {
        &&& self.wf()
        &&& forall|d: int, m: int|
            0 <= d < 128 && 0 <= m < 128 ==> #[trigger] self.table@[d * 128 + m] == base_reduction(
                d,
                m,
                divisor,
            )
    }
}

fn reduction_of(d: usize, m: usize, divisor: i32) -> (r: i32)
    requires
        d < 128,
        m < 128,
        125 <= divisor <= 300,
    ensures
        r == base_reduction(d as int, m as int, divisor as int),
        0 <= r <= 1_000_000,
{
    if d == 0 || m == 0 {
        return 0;
    }
    let a: u64 = ln_of(d) as u64;
    let b: u64 = ln_of(m) as u64;
    let q: u128 = divisor as u128 * 0x100_0000_0000_0000;
    assert(0 <= a * b < 0x1_0000_0000_0000_0000) by (nonlinear_arith)
        requires
            0 <= a < 0x1_0000_0000,
            0 <= b < 0x1_0000_0000,
    ;
    let p: u128 = (a as u128) * (b as u128) * 100;
    proof {
        let pi = p as int;
        let qi = q as int;
        assert(qi >= 125 * 0x100_0000_0000_0000);
        assert(pi < 0x1_0000_0000_0000_0000 * 100);
        assert(0 <= pi / qi <= 1_000_000) by (nonlinear_arith)
            requires
                0 <= pi < 0x1_0000_0000_0000_0000 * 100,
                qi >= 125 * 0x100_0000_0000_0000,
        ;
    }
    (p / q) as i32
}

/// Computes the base reductions for the tuned divisor.
pub fn init_lmr(tune: &Tunables) -> (t: LmrTable)
    requires
        tune.in_range(),
    ensures
        t.holds(tune.values@[LMR_DIVISOR as int] as int),
{
    let divisor: i32 = get(tune, LMR_DIVISOR);
    let mut table: Vec<i32> = Vec::new();
    let mut d: usize = 0;
    while d < 128
        invariant
            d <= 128,
            125 <= divisor <= 300,
            table@.len() == d * 128,
            forall|i: int| 0 <= i < table@.len() ==> 0 <= #[trigger] table@[i] <= 1_000_000,
            forall|i: int|
                0 <= i < table@.len() ==> #[trigger] table@[i] == base_reduction(
                    i / 128,
                    i % 128,
                    divisor as int,
                ),
        decreases 128 - d,
    {
        let mut m: usize = 0;
        while m < 128
            invariant
                d < 128,
                m <= 128,
                125 <= divisor <= 300,
                table@.len() == d * 128 + m,
                forall|i: int| 0 <= i < table@.len() ==> 0 <= #[trigger] table@[i] <= 1_000_000,
                forall|i: int|
                    0 <= i < table@.len() ==> #[trigger] table@[i] == base_reduction(
                        i / 128,
                        i % 128,
                        divisor as int,
                    ),
            decreases 128 - m,
        {
            table.push(reduction_of(d, m, divisor));
            m = m + 1;
        }
        d = d + 1;
    }
    LmrTable { table }
}

/// What a reduction depends on.
#[derive(Clone, Copy)]
pub struct LmrInputs {
    pub depth: i32,
    pub moves_searched: usize,
    pub on_pv: bool,
    pub improving: bool,
    pub hist_score: i32,
    pub cut_node: bool,
    pub static_eval: i32,
    pub alpha: i32,
    pub gives_check: bool,
}

pub open spec fn one_if(b: bool) -> int {
    if b {
        1
    } else {
        0
    }
}

/// The reduction: the base reduction, one less on a principal variation or for
/// a check, one more when not improving, at a cut node or well above alpha, and
/// up to two less or more by history. It stays between 0 and two less than the
/// depth. Depth and move number count up to 127.
pub open spec fn reduction(table: Seq<i32>, hist_div: int, x: LmrInputs) -> int {
    let d = at_most(x.depth as int, 127);
    let m = at_most(x.moves_searched as int, 127);
    let r = table[d * 128 + m] - one_if(x.on_pv) + one_if(!x.improving) + one_if(x.cut_node)
        - clamped(tdiv(x.hist_score as int, hist_div), -2, 2) + one_if(
        x.static_eval - x.alpha >= 150,
    ) - one_if(x.gives_check);
    at_most(at_least(r, 0), x.depth - 2)
}

/// The indices of the table stay within it for every depth and move number.
pub proof fn lmr_index_in_table(depth: int, moves: int)
    requires
        depth >= 0,
        moves >= 0,
    ensures
        0 <= at_most(depth, 127) * 128 + at_most(moves, 127) < 16384,
{
}

/// The plies that history takes off a reduction.
fn history_plies(hist_score: i32, hist_div: i32) -> (h: i32)
    requires
        hist_div > 0,
    ensures
        h == clamped(tdiv(hist_score as int, hist_div as int), -2, 2),
        -2 <= h <= 2,
{
    let h: i32 = hist_score / hist_div;
    if h < -2 {
        -2
    } else if h > 2 {
        2
    } else {
        h
    }
}

pub fn lmr_reduction(t: &LmrTable, tune: &Tunables, x: &LmrInputs) -> (r: i32)
    requires
        t.wf(),
        tune.in_range(),
        x.depth >= 2,
        -1_000_000_000 <= x.static_eval <= 1_000_000_000,
        -1_000_000_000 <= x.alpha <= 1_000_000_000,
    ensures
        r == reduction(t.table@, tune.values@[LMR_HIST_DIV as int] as int, *x),
        0 <= r <= x.depth - 2,
{
    let d: usize = if x.depth > 127 {
        127
    } else {
        x.depth as usize
    };
    let m: usize = if x.moves_searched > 127 {
        127
    } else {
        x.moves_searched
    };
    let mut r: i32 = t.table[d * 128 + m];
    if x.on_pv {
        r = r - 1;
    }
    if !x.improving {
        r = r + 1;
    }
    if x.cut_node {
        r = r + 1;
    }
    r = r - history_plies(x.hist_score, get(tune, LMR_HIST_DIV));
    if x.static_eval - x.alpha >= 150 {
        r = r + 1;
    }
    if x.gives_check {
        r = r - 1;
    }
    if r < 0 {
        r = 0;
    }
    if r > x.depth - 2 {
        r = x.depth - 2;
    }
    r
}

} // verus!
