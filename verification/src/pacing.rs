//! How a search spends its time: what the limits and factors have in common.

use crate::time::{
    effort_for, forced_for, horizon_of, is_bullet, may_start, move_cap, must_end, stability_for,
    swing_for, Budget, TimeControl, TimeManager,
};
use vstd::prelude::*;

verus! {

/// The limits of a search by the clock: the soft one is not above the hard one, the hard
/// one not above the budget, and below a minute not above 15 percent of the time and the
/// increment, or 50 milliseconds. A deadline is kept.
pub proof fn budgets_bind(
    t: TimeManager,
    tc: TimeControl,
    white: bool,
    budget: Budget,
    deadline: Option<i64>,
)
    requires
        t.limited_by(tc, white, budget, deadline),
        !tc.infinite,
        tc.depth <= 0,
        tc.movetime <= 0,
        (if white {
            tc.wtime
        } else {
            tc.btime
        }) > 0,
    ensures
        t.soft_limit_ms <= t.hard_limit_ms <= budget.maximum,
        t.soft_limit_ms <= budget.optimum,
        ({
            let time = if white {
                tc.wtime as int
            } else {
                tc.btime as int
            };
            let inc = if white {
                tc.winc as int
            } else {
                tc.binc as int
            };
            time <= 60_000 ==> t.hard_limit_ms <= time * 15 / 100 + inc || t.hard_limit_ms <= 50
        }),
        deadline matches Some(d) ==> t.hard_limit_ms <= d || t.hard_limit_ms <= 1,
        t.max_depth == 100,
{
}

/// A fixed time is the limit itself; an infinite search and one to a depth have none; a
/// clock that has run out leaves 100 milliseconds.
pub proof fn fixed_times_bind(
    t: TimeManager,
    tc: TimeControl,
    white: bool,
    budget: Budget,
    deadline: Option<i64>,
)
    requires
        t.limited_by(tc, white, budget, deadline),
    ensures
        !tc.infinite && tc.depth <= 0 && tc.movetime > 0 ==> t.hard_limit_ms == tc.movetime
            && t.soft_limit_ms == tc.movetime,
        tc.infinite || tc.depth > 0 ==> t.hard_limit_ms == i64::MAX && t.soft_limit_ms == i64::MAX,
        !tc.infinite && tc.depth <= 0 && tc.movetime <= 0 && (if white {
            tc.wtime
        } else {
            tc.btime
        }) <= 0 ==> t.hard_limit_ms == 100 && t.soft_limit_ms == 100,
        tc.depth > 0 ==> t.max_depth == tc.depth,
        t.max_nodes == tc.nodes,
{
}

/// The steadier the best move, the larger its share of the nodes and the further it
/// stands out, the less time is spent; a score that falls takes more. Where nothing is
/// known the factors change nothing.
pub proof fn factors_fall(n: int, m: int, best: int, more: int, total: int, gap: int, wider: int)
    requires
        0 <= n <= m,
        0 <= best <= more <= total,
        gap <= wider,
    ensures
        75 <= stability_for(m) <= stability_for(n) <= 250,
        stability_for(0) > 100 && stability_for(4) < 100,
        50 <= effort_for(more, total) <= effort_for(best, total) <= 150,
        total > 0 ==> effort_for(total, total) == 50 && effort_for(0, total) == 150,
        forced_for(1, gap) == 1,
        2 <= n ==> forced_for(n, wider) <= forced_for(n, gap) <= 100,
        2 <= n && gap > 400 ==> forced_for(n, gap) < 50,
        2 <= n && gap <= 170 ==> forced_for(n, gap) == 100,
{
}

/// The factor for the score is a half to the power of its rise over 100: it falls with the
/// rise, that for a fall is the inverse of that for a rise, and 100 points halve it.
pub proof fn swings_are_powers(d: int)
    requires
        0 <= d <= 100,
    ensures
        swing_for(0) == 0x1_0000_0000,
        swing_for(100) == 0x8000_0000,
        swing_for(-100) == 0x2_0000_0000,
        d < 100 ==> swing_for(d + 1) < swing_for(d) && swing_for(-d) < swing_for(-d - 1),
        swing_for(d - 100) - 1 <= 2 * swing_for(d) <= swing_for(d - 100) + 1,
{
    reveal(swing_for);
}

/// With neutral factors the limits stay as they were planned.
pub proof fn neutral_factors_change_nothing(t: TimeManager)
    requires
        t.stability_percent == 100,
        t.node_percent == 100,
        t.forced_percent == 100,
        t.score_delta == 0,
        1 <= t.base_soft_limit_ms <= t.base_hard_limit_ms,
    ensures
        t.scaled_hard() == t.base_hard_limit_ms,
        t.scaled_soft() == t.base_soft_limit_ms,
{
    swings_are_powers(0);
    let q = t.stability_percent * t.node_percent * t.forced_percent * swing_for(0);
    assert(q == 0xF_4240_0000_0000) by {
        assert(100 * 100 * 100 * 0x1_0000_0000 == 0xF_4240_0000_0000) by (nonlinear_arith);
    }
    vstd::arithmetic::div_mod::lemma_div_by_multiple(t.base_hard_limit_ms as int, q);
    vstd::arithmetic::div_mod::lemma_div_by_multiple(t.base_soft_limit_ms as int, q);
}

/// Under every factor the soft limit stays within the hard one, the hard one within what
/// was planned, and the soft one within two and a half times what was planned; both leave
/// at least a millisecond.
pub proof fn factors_stay_within(t: TimeManager)
    requires
        t.base_soft_limit_ms >= 1,
        t.base_hard_limit_ms >= 1,
    ensures
        1 <= t.scaled_soft() <= t.scaled_hard() <= t.base_hard_limit_ms,
        2 * t.scaled_soft() <= 5 * t.base_soft_limit_ms,
{
}

/// A larger factor for steadiness never shortens the limits.
pub proof fn factors_raise_the_limits(t: TimeManager, u: TimeManager)
    requires
        u.base_soft_limit_ms == t.base_soft_limit_ms,
        u.base_hard_limit_ms == t.base_hard_limit_ms,
        t.base_soft_limit_ms >= 0,
        t.base_hard_limit_ms >= 0,
        t.stability_percent <= u.stability_percent,
        t.node_percent <= u.node_percent,
        t.forced_percent <= u.forced_percent,
        t.score_delta == u.score_delta,
        -100 <= t.score_delta <= 100,
    ensures
        t.scaled_hard() <= u.scaled_hard(),
        t.scaled_soft() <= u.scaled_soft(),
{
    let w = swing_for(t.score_delta as int);
    assert(w >= 0) by {
        reveal(swing_for);
    }
    let a = t.stability_percent as int;
    let b = t.node_percent as int;
    let c = t.forced_percent as int;
    let x = u.stability_percent as int;
    let y = u.node_percent as int;
    let z = u.forced_percent as int;
    assert(0 <= a * b <= x * y) by (nonlinear_arith)
        requires
            0 <= a <= x,
            0 <= b <= y,
    ;
    assert(0 <= a * b * c <= x * y * z) by (nonlinear_arith)
        requires
            0 <= a * b <= x * y,
            0 <= c <= z,
    ;
    let f = a * b * c * w;
    let g = x * y * z * w;
    assert(0 <= f <= g) by (nonlinear_arith)
        requires
            f == a * b * c * w,
            g == x * y * z * w,
            0 <= a * b * c <= x * y * z,
            w >= 0,
    ;
    grows(t.base_hard_limit_ms as int, f, g);
    grows(t.base_soft_limit_ms as int, f, g);
}

proof fn grows(base: int, f: int, g: int)
    requires
        base >= 0,
        0 <= f <= g,
    ensures
        base * f / 0xF_4240_0000_0000 <= base * g / 0xF_4240_0000_0000,
{
    assert(base * f <= base * g) by (nonlinear_arith)
        requires
            base >= 0,
            0 <= f <= g,
    ;
    vstd::arithmetic::div_mod::lemma_div_is_ordered(base * f, base * g, 0xF_4240_0000_0000);
}

/// A new iteration begins only in the first 60 percent of the soft limit, and a search
/// ends when its hard limit, its deadline or its nodes are used up; while pondering neither
/// limit counts.
pub proof fn limits_end_searches(
    soft: int,
    hard: int,
    elapsed: int,
    nodes: int,
    most: int,
    deadline: Option<i64>,
)
    requires
        0 <= soft < i64::MAX,
        0 <= hard < i64::MAX,
    ensures
        may_start(true, false, soft, elapsed) && !must_end(
            true,
            deadline,
            most,
            nodes,
            false,
            hard,
            elapsed,
        ),
        elapsed * 100 >= soft * 60 ==> !may_start(false, false, soft, elapsed),
        elapsed * 100 < soft * 60 - 100 ==> may_start(false, false, soft, elapsed),
        elapsed >= hard ==> must_end(false, deadline, most, nodes, false, hard, elapsed),
        most > 0 && nodes >= most ==> must_end(false, deadline, most, nodes, true, hard, elapsed),
        deadline matches Some(d) && elapsed >= d ==> must_end(
            false,
            deadline,
            most,
            nodes,
            true,
            hard,
            elapsed,
        ),
        deadline is None && most == 0 && elapsed < hard ==> !must_end(
            false,
            deadline,
            most,
            nodes,
            false,
            hard,
            elapsed,
        ),
{
}

/// The time is spread over one to fifty moves, over no more than are left to the control,
/// and over fewer in the last second.
pub proof fn horizons_are_bounded(time: int, less: int, moves: int)
    requires
        0 < less <= time,
        0 <= moves,
    ensures
        1 <= horizon_of(time, moves) <= 50,
        time >= 1000 && moves > 0 ==> horizon_of(time, moves) <= moves,
        time >= 1000 && moves == 0 ==> horizon_of(time, moves) == 50,
        time < 1000 ==> horizon_of(less, moves) <= horizon_of(time, moves) <= time,
        is_bullet(60_000, 0) && is_bullet(60_000, 1_000) && !is_bullet(180_000, 0),
        is_bullet(time, 0) ==> is_bullet(less, 0),
        move_cap(time, 0, 0) >= 50 || time > 60_000,
{
}

} // verus!
