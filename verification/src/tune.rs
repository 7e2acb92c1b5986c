//! Tunable search parameters.

use crate::text::same_chars;
use crate::types::chars_of;
use vstd::prelude::*;

verus! {

/// Reverse futility margin per depth while improving.
pub const RFP_MARGIN_IMP: usize = 0;

/// Reverse futility margin per depth otherwise.
pub const RFP_MARGIN_NIMP: usize = 1;

/// Deepest reverse futility pruning.
pub const RFP_DEPTH: usize = 2;

/// Base reduction of a null move.
pub const NMP_BASE: usize = 3;

/// Depth per further ply of null move reduction.
pub const NMP_DEPTH_DIV: usize = 4;

/// Evaluation surplus per further ply of null move reduction.
pub const NMP_EVAL_DIV: usize = 5;

/// Largest reduction by evaluation surplus.
pub const NMP_EVAL_MAX: usize = 6;

/// Razoring margin per depth.
pub const RAZOR_MARGIN: usize = 7;

/// Deepest razoring.
pub const RAZOR_DEPTH: usize = 8;

/// Futility margin per depth.
pub const FP_MARGIN_MUL: usize = 9;

/// Futility margin at depth 0.
pub const FP_MARGIN_ADD: usize = 10;

/// Deepest futility pruning.
pub const FP_DEPTH: usize = 11;

/// Base number of moves before late moves are pruned.
pub const LMP_BASE: usize = 12;

/// Deepest history pruning.
pub const HIST_PRUNE_DEPTH: usize = 13;

/// History margin per depth.
pub const HIST_PRUNE_MARGIN: usize = 14;

/// Deepest pruning by static exchange.
pub const SEE_DEPTH: usize = 15;

/// Exchange margin per depth of quiet moves.
pub const SEE_QUIET_MUL: usize = 16;

/// Exchange margin per depth of captures.
pub const SEE_CAP_MUL: usize = 17;

/// History per ply of late move reduction.
pub const LMR_HIST_DIV: usize = 18;

/// Divisor of the late move reduction formula, in hundredths.
pub const LMR_DIVISOR: usize = 19;

/// Half width of the first aspiration window.
pub const ASP_DELTA: usize = 20;

/// Margin of the cut by a shallow search.
pub const PROBCUT_MARGIN: usize = 21;

/// Least depth of the cut by a shallow search.
pub const PROBCUT_DEPTH: usize = 22;

/// Least depth of singular extensions.
pub const SE_DEPTH: usize = 23;

/// Singular margin per depth.
pub const SE_MARGIN_MUL: usize = 24;

/// How many parameters there are.
pub const NUM_PARAMS: usize = 25;

/// The value of a parameter at the start.
pub open spec fn default_value(i: int) -> int {
    if i == 0 {
        80
    } else if i == 1 {
        58
    } else if i == 2 {
        7
    } else if i == 3 {
        3
    } else if i == 4 {
        6
    } else if i == 5 {
        230
    } else if i == 6 {
        3
    } else if i == 7 {
        210
    } else if i == 8 {
        3
    } else if i == 9 {
        68
    } else if i == 10 {
        115
    } else if i == 11 {
        8
    } else if i == 12 {
        3
    } else if i == 13 {
        5
    } else if i == 14 {
        1024
    } else if i == 15 {
        8
    } else if i == 16 {
        42
    } else if i == 17 {
        100
    } else if i == 18 {
        5120
    } else if i == 19 {
        137
    } else if i == 20 {
        21
    } else if i == 21 {
        80
    } else if i == 22 {
        5
    } else if i == 23 {
        8
    } else {
        3
    }
}

/// The smallest value of a parameter.
pub open spec fn least_value(i: int) -> int {
    if i == 0 {
        30
    } else if i == 1 {
        20
    } else if i == 2 {
        4
    } else if i == 3 {
        2
    } else if i == 4 {
        3
    } else if i == 5 {
        100
    } else if i == 6 {
        1
    } else if i == 7 {
        100
    } else if i == 8 {
        1
    } else if i == 9 {
        40
    } else if i == 10 {
        50
    } else if i == 11 {
        4
    } else if i == 12 {
        1
    } else if i == 13 {
        2
    } else if i == 14 {
        256
    } else if i == 15 {
        4
    } else if i == 16 {
        20
    } else if i == 17 {
        50
    } else if i == 18 {
        2048
    } else if i == 19 {
        125
    } else if i == 20 {
        10
    } else if i == 21 {
        50
    } else if i == 22 {
        3
    } else if i == 23 {
        5
    } else {
        1
    }
}

/// The largest value of a parameter.
pub open spec fn largest_value(i: int) -> int {
    if i == 0 {
        120
    } else if i == 1 {
        100
    } else if i == 2 {
        12
    } else if i == 3 {
        5
    } else if i == 4 {
        12
    } else if i == 5 {
        400
    } else if i == 6 {
        6
    } else if i == 7 {
        400
    } else if i == 8 {
        5
    } else if i == 9 {
        150
    } else if i == 10 {
        200
    } else if i == 11 {
        12
    } else if i == 12 {
        6
    } else if i == 13 {
        8
    } else if i == 14 {
        4096
    } else if i == 15 {
        12
    } else if i == 16 {
        100
    } else if i == 17 {
        200
    } else if i == 18 {
        10240
    } else if i == 19 {
        300
    } else if i == 20 {
        50
    } else if i == 21 {
        200
    } else if i == 22 {
        8
    } else if i == 23 {
        12
    } else {
        4
    }
}

/// The name of a parameter.
pub open spec fn param_name(i: int) -> Seq<char> {
    if i == 0 {
        "RFP_MARGIN_IMP"@
    } else if i == 1 {
        "RFP_MARGIN_NIMP"@
    } else if i == 2 {
        "RFP_DEPTH"@
    } else if i == 3 {
        "NMP_BASE"@
    } else if i == 4 {
        "NMP_DEPTH_DIV"@
    } else if i == 5 {
        "NMP_EVAL_DIV"@
    } else if i == 6 {
        "NMP_EVAL_MAX"@
    } else if i == 7 {
        "RAZOR_MARGIN"@
    } else if i == 8 {
        "RAZOR_DEPTH"@
    } else if i == 9 {
        "FP_MARGIN_MUL"@
    } else if i == 10 {
        "FP_MARGIN_ADD"@
    } else if i == 11 {
        "FP_DEPTH"@
    } else if i == 12 {
        "LMP_BASE"@
    } else if i == 13 {
        "HIST_PRUNE_DEPTH"@
    } else if i == 14 {
        "HIST_PRUNE_MARGIN"@
    } else if i == 15 {
        "SEE_DEPTH"@
    } else if i == 16 {
        "SEE_QUIET_MUL"@
    } else if i == 17 {
        "SEE_CAP_MUL"@
    } else if i == 18 {
        "LMR_HIST_DIV"@
    } else if i == 19 {
        "LMR_DIVISOR"@
    } else if i == 20 {
        "ASP_DELTA"@
    } else if i == 21 {
        "PROBCUT_MARGIN"@
    } else if i == 22 {
        "PROBCUT_DEPTH"@
    } else if i == 23 {
        "SE_DEPTH"@
    } else {
        "SE_MARGIN_MUL"@
    }
}

/// The values of all parameters.
#[derive(Clone, Copy)]
pub struct Tunables {
    pub values: [i32; 25],
}

/// A parameter as it is shown to a user.
pub struct TuneParam {
    pub name: &'static str,
    pub param: usize,
    pub default: i32,
    pub min: i32,
    pub max: i32,
}

/// The entry describes parameter `i`.
pub open spec fn describes(p: TuneParam, i: int) -> bool {
    &&& p.param == i
    &&& p.name@ == param_name(i)
    &&& p.default == default_value(i)
    &&& p.min == least_value(i)
    &&& p.max == largest_value(i)
}

/// All parameters at their defaults.
pub open spec fn default_tunables() -> Tunables {
    Tunables {
        values: [
            80,
            58,
            7,
            3,
            6,
            230,
            3,
            210,
            3,
            68,
            115,
            8,
            3,
            5,
            1024,
            8,
            42,
            100,
            5120,
            137,
            21,
            80,
            5,
            8,
            3,
        ],
    }
}

impl Tunables {
    /// Every parameter lies within its range.
    pub open spec fn in_range(&self) -> bool {
        forall|i: int|
            0 <= i < 25 ==> least_value(i) <= #[trigger] self.values@[i] <= largest_value(i)
    }

    /// All parameters at their defaults.
    pub fn new() -> (t: Tunables)
        ensures
            t.in_range(),
            t == default_tunables(),
            forall|i: int| 0 <= i < 25 ==> #[trigger] t.values@[i] == default_value(i),
    {
        let t: Tunables = Tunables {
            values: [
                80,
                58,
                7,
                3,
                6,
                230,
                3,
                210,
                3,
                68,
                115,
                8,
                3,
                5,
                1024,
                8,
                42,
                100,
                5120,
                137,
                21,
                80,
                5,
                8,
                3,
            ],
        };
        assert(t.values@ =~= default_tunables().values@);
        t
    }

    /// Every parameter lies within its range.
    pub fn is_in_range(&self) -> (b: bool)
        ensures
            b == self.in_range(),
    {
        let params: Vec<TuneParam> = all_params();
        let mut i: usize = 0;
        while i < 25
            invariant
                i <= 25,
                params@.len() == 25,
                forall|k: int| 0 <= k < 25 ==> describes(#[trigger] params@[k], k),
                forall|k: int|
                    0 <= k < i ==> least_value(k) <= #[trigger] self.values@[k] <= largest_value(k),
            decreases 25 - i,
        {
            assert(describes(params@[i as int], i as int));
            if self.values[i] < params[i].min || self.values[i] > params[i].max {
                assert(!(least_value(i as int) <= self.values@[i as int] <= largest_value(i as int)));
                return false;
            }
            i = i + 1;
        }
        true
    }
}

/// The value of a parameter.
pub fn get(t: &Tunables, param: usize) -> (v: i32)
    requires
        param < 25,
    ensures
        v == t.values@[param as int],
        t.in_range() ==> least_value(param as int) <= v <= largest_value(param as int),
{
    t.values[param]
}

/// Gives a parameter a value.
pub fn set(t: &mut Tunables, param: usize, val: i32)
    requires
        param < 25,
    ensures
        final(t).values@ == old(t).values@.update(param as int, val),
        old(t).in_range() && least_value(param as int) <= val <= largest_value(param as int)
            ==> final(t).in_range(),
{
    t.values[param] = val;
}

/// All parameters in their order.
pub fn all_params() -> (v: Vec<TuneParam>)
    ensures
        v@.len() == 25,
        forall|i: int| 0 <= i < 25 ==> describes(#[trigger] v@[i], i),
{
    let mut v: Vec<TuneParam> = Vec::new();
    v.push(TuneParam { name: "RFP_MARGIN_IMP", param: 0, default: 80, min: 30, max: 120 });
    v.push(TuneParam { name: "RFP_MARGIN_NIMP", param: 1, default: 58, min: 20, max: 100 });
    v.push(TuneParam { name: "RFP_DEPTH", param: 2, default: 7, min: 4, max: 12 });
    v.push(TuneParam { name: "NMP_BASE", param: 3, default: 3, min: 2, max: 5 });
    v.push(TuneParam { name: "NMP_DEPTH_DIV", param: 4, default: 6, min: 3, max: 12 });
    v.push(TuneParam { name: "NMP_EVAL_DIV", param: 5, default: 230, min: 100, max: 400 });
    v.push(TuneParam { name: "NMP_EVAL_MAX", param: 6, default: 3, min: 1, max: 6 });
    v.push(TuneParam { name: "RAZOR_MARGIN", param: 7, default: 210, min: 100, max: 400 });
    v.push(TuneParam { name: "RAZOR_DEPTH", param: 8, default: 3, min: 1, max: 5 });
    v.push(TuneParam { name: "FP_MARGIN_MUL", param: 9, default: 68, min: 40, max: 150 });
    v.push(TuneParam { name: "FP_MARGIN_ADD", param: 10, default: 115, min: 50, max: 200 });
    v.push(TuneParam { name: "FP_DEPTH", param: 11, default: 8, min: 4, max: 12 });
    v.push(TuneParam { name: "LMP_BASE", param: 12, default: 3, min: 1, max: 6 });
    v.push(TuneParam { name: "HIST_PRUNE_DEPTH", param: 13, default: 5, min: 2, max: 8 });
    v.push(TuneParam { name: "HIST_PRUNE_MARGIN", param: 14, default: 1024, min: 256, max: 4096 });
    v.push(TuneParam { name: "SEE_DEPTH", param: 15, default: 8, min: 4, max: 12 });
    v.push(TuneParam { name: "SEE_QUIET_MUL", param: 16, default: 42, min: 20, max: 100 });
    v.push(TuneParam { name: "SEE_CAP_MUL", param: 17, default: 100, min: 50, max: 200 });
    v.push(TuneParam { name: "LMR_HIST_DIV", param: 18, default: 5120, min: 2048, max: 10240 });
    v.push(TuneParam { name: "LMR_DIVISOR", param: 19, default: 137, min: 125, max: 300 });
    v.push(TuneParam { name: "ASP_DELTA", param: 20, default: 21, min: 10, max: 50 });
    v.push(TuneParam { name: "PROBCUT_MARGIN", param: 21, default: 80, min: 50, max: 200 });
    v.push(TuneParam { name: "PROBCUT_DEPTH", param: 22, default: 5, min: 3, max: 8 });
    v.push(TuneParam { name: "SE_DEPTH", param: 23, default: 8, min: 5, max: 12 });
    v.push(TuneParam { name: "SE_MARGIN_MUL", param: 24, default: 3, min: 1, max: 4 });
    v
}

/// The parameter of a name.
pub fn param_by_name(name: &str) -> (r: Option<TuneParam>)
    ensures
        match r {
            Some(p) => p.param < 25 && describes(p, p.param as int) && p.name@ == name@,
            None => forall|i: int| 0 <= i < 25 ==> #[trigger] param_name(i) != name@,
        },
{
    let want: Vec<char> = chars_of(name);
    let mut params: Vec<TuneParam> = all_params();
    let mut k: usize = 25;
    while k > 0
        invariant
            k <= 25,
            want@ == name@,
            params@.len() == k,
            forall|i: int| 0 <= i < k ==> describes(#[trigger] params@[i], i),
            forall|i: int| k <= i < 25 ==> #[trigger] param_name(i) != name@,
        decreases k,
    {
        assert(describes(params@[k - 1], k - 1));
        let last: Option<TuneParam> = params.pop();
        k = k - 1;
        if let Some(p) = last {
            if same_chars(&chars_of(p.name), &want) {
                return Some(p);
            }
        }
    }
    None
}

} // verus!
