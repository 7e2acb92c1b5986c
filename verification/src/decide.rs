//! The decisions of the search: scores, draws, pruning and extensions.

use crate::bitboard::{popcount, squares};
use crate::board::Position;
use crate::num::{at_least, at_most, mag, mag_i32, tdiv};
use crate::tt::{FLAG_EXACT, FLAG_LOWER, FLAG_UPPER};
use crate::tune::{
    get, Tunables, FP_DEPTH, FP_MARGIN_ADD, FP_MARGIN_MUL, HIST_PRUNE_DEPTH, HIST_PRUNE_MARGIN,
    LMP_BASE, NMP_BASE, NMP_DEPTH_DIV, NMP_EVAL_DIV, NMP_EVAL_MAX, RAZOR_DEPTH, RAZOR_MARGIN,
    RFP_DEPTH, RFP_MARGIN_IMP, RFP_MARGIN_NIMP, SEE_CAP_MUL, SEE_QUIET_MUL, SE_DEPTH,
};
use crate::types::Color;
use vstd::prelude::*;

verus! {

/// The deepest search: the square of a depth must fit an `i32`, and a line can
/// extend the depth by one at each ply.
pub const MAX_DEPTH: i32 = 46_200;

// ---- Scores ----
/// More than any score of an ordinary position.
pub const INFINITY: i32 = 30000;

/// The score of being mated at once, turned round.
pub const MATE_SCORE: i32 = 29000;

/// The least score of a mate.
pub const MATE_IN_MAX: i32 = 28872;

/// The least score that is reported as a mate.
pub const MINIMUM_MATE_SCORE: i32 = 28872;

/// The least score of a tablebase win; the band ends where the mates begin.
pub const TB_WIN_IN_MAX: i32 = 28744;

/// The score is decisive: a mate or a tablebase result.
pub open spec fn decisive(score: int) -> bool {
    mag(score) >= 28744
}

pub fn is_mate_score(score: i32) -> (b: bool)
    requires
        score > i32::MIN,
    ensures
        b == decisive(score as int),
{
    mag_i32(score) >= TB_WIN_IN_MAX
}

/// A score as the transposition table keeps it: decisive scores count from the
/// position instead of the root.
pub open spec fn kept_score(score: int, ply: int) -> int {
    if score >= 28744 {
        score + ply
    } else if score <= -28744 {
        score - ply
    } else {
        score
    }
}

/// A score of the transposition table as the search sees it at a ply.
pub open spec fn seen_score(score: int, ply: int) -> int {
    if score >= 28744 {
        score - ply
    } else if score <= -28744 {
        score + ply
    } else {
        score
    }
}

/// Scores beyond 16 bits are cut to their lowest 16 bits.
pub fn score_to_tt(score: i32, ply: i32) -> (s: i16)
    requires
        -1_000_000_000 <= score <= 1_000_000_000,
        0 <= ply <= 128,
    ensures
        s == kept_score(score as int, ply as int) as i16,
{
    if score >= TB_WIN_IN_MAX {
        (score + ply) as i16
    } else if score <= -TB_WIN_IN_MAX {
        (score - ply) as i16
    } else {
        score as i16
    }
}

pub fn score_from_tt(score: i16, ply: i32) -> (s: i32)
    requires
        0 <= ply <= 128,
    ensures
        s == seen_score(score as int, ply as int),
        -33000 <= s <= 33000,
{
    let s: i32 = score as i32;
    if s >= TB_WIN_IN_MAX {
        s - ply
    } else if s <= -TB_WIN_IN_MAX {
        s + ply
    } else {
        s
    }
}

/// A score that is kept in the table and read at the same ply is the same score.
pub proof fn score_survives_table(score: int, ply: int)
    requires
        -29000 <= score <= 29000,
        0 <= ply <= 128,
    ensures
        seen_score((kept_score(score, ply) as i16) as int, ply) == score,
{
}

/// The score of a tablebase result at a ply.
pub open spec fn table_score(wdl: int, ply: int) -> int {
    if wdl == 1 {
        28872 - ply
    } else if wdl == -1 {
        ply - 28872
    } else {
        0
    }
}

pub fn tb_score(wdl: i32, ply: i32) -> (s: i32)
    requires
        0 <= ply <= 128,
    ensures
        s == table_score(wdl as int, ply as int),
        -28872 <= s <= 28872,
{
    if wdl == 1 {
        MATE_IN_MAX - ply
    } else if wdl == -1 {
        ply - MATE_IN_MAX
    } else {
        0
    }
}

/// A tablebase win never looks like a mate, and a mate never like a table win.
pub proof fn table_scores_are_not_mates(wdl: int, ply: int)
    requires
        1 <= ply <= 128,
    ensures
        mag(table_score(wdl, ply)) < 28872,
        wdl == 1 || wdl == -1 ==> decisive(table_score(wdl, ply)),
{
}

/// In how many moves a decisive score mates, negative for being mated.
pub open spec fn mate_moves(score: int) -> int {
    if score > 0 {
        tdiv(29000 - score + 1, 2)
    } else {
        tdiv(-(29000 + score + 1), 2)
    }
}

pub fn mate_in(score: i32) -> (m: i32)
    requires
        -1_000_000_000 <= score <= 1_000_000_000,
    ensures
        m == mate_moves(score as int),
{
    if score > 0 {
        (MATE_SCORE - score + 1) / 2
    } else {
        -(MATE_SCORE + score + 1) / 2
    }
}

/// The search need not go deeper: the score wins decisively, and the search is
/// as deep as the win that it claims.
pub open spec fn settled(score: int, depth: int) -> bool {
    score >= 28744 && depth >= 29000 - score
}

pub fn is_settled(score: i32, depth: i32) -> (b: bool)
    requires
        -1_000_000_000 <= score <= 1_000_000_000,
    ensures
        b == settled(score as int, depth as int),
{
    score >= TB_WIN_IN_MAX && depth >= MATE_SCORE - score
}

/// A score that fades as the fifty-move rule comes near.
pub open spec fn faded(score: int, clock: int) -> int {
    tdiv(score * at_least(200 - clock, 0), 200)
}

pub fn fade(score: i32, clock: u16) -> (s: i32)
    requires
        -430_000_000 <= score <= 430_000_000,
    ensures
        s == faded(score as int, clock as int),
        -430_000_000 <= s <= 430_000_000,
{
    let left: i64 = if clock > 200 {
        0
    } else {
        200 - clock as i64
    };
    let v: i64 = score as i64;
    assert(-430_000_000 * 200 <= v * left <= 430_000_000 * 200) by (nonlinear_arith)
        requires
            -430_000_000 <= v <= 430_000_000,
            0 <= left <= 200,
    ;
    ((v * left) / 200) as i32
}

// ---- Draws ----
/// The value of a piece type for contempt.
pub open spec fn draw_value(t: int) -> int {
    if t == 0 {
        100
    } else if t == 1 {
        320
    } else if t == 2 {
        330
    } else if t == 3 {
        500
    } else if t == 4 {
        900
    } else {
        0
    }
}

/// How many pieces of a type a side has.
pub open spec fn count_of(p: Position, t: int, c: Color) -> int {
    squares(p.pieces@[t] & p.colors@[c.num()]).len() as int
}

/// The material of the side to move above that of the other, over the first `n`
/// piece types.
pub open spec fn material_lead(p: Position, n: int) -> int
    decreases n,
{
    if n <= 0 {
        0
    } else {
        material_lead(p, n - 1) + (count_of(p, n - 1, p.side) - count_of(
            p,
            n - 1,
            p.side.other(),
        )) * draw_value(n - 1)
    }
}

/// The score of a draw: slightly bad for the side with more material.
pub open spec fn draw_score(p: Position) -> int {
    if material_lead(p, 6) > 200 {
        -10
    } else if material_lead(p, 6) < -200 {
        10
    } else {
        0
    }
}

fn draw_value_of(t: usize) -> (v: i32)
    requires
        t < 6,
    ensures
        v == draw_value(t as int),
        0 <= v <= 900,
{
    if t == 0 {
        100
    } else if t == 1 {
        320
    } else if t == 2 {
        330
    } else if t == 3 {
        500
    } else if t == 4 {
        900
    } else {
        0
    }
}

pub fn contempt_draw_score(pos: &Position) -> (s: i32)
    ensures
        s == draw_score(*pos),
        -10 <= s <= 10,
{
    let us: usize = pos.side.index();
    let them: usize = pos.side.flip().index();
    let mut lead: i32 = 0;
    let mut t: usize = 0;
    while t < 6
        invariant
            t <= 6,
            us == pos.side.num(),
            them == pos.side.other().num(),
            lead == material_lead(*pos, t as int),
            -60_000 * t <= lead <= 60_000 * t,
        decreases 6 - t,
    {
        let ours: i32 = popcount(pos.pieces[t] & pos.colors[us]) as i32;
        let theirs: i32 = popcount(pos.pieces[t] & pos.colors[them]) as i32;
        let v: i32 = draw_value_of(t);
        let diff: i32 = ours - theirs;
        assert(-60_000 <= diff * v <= 60_000) by (nonlinear_arith)
            requires
                -64 <= diff <= 64,
                0 <= v <= 900,
        ;
        lead = lead + diff * v;
        t = t + 1;
    }
    if lead > 200 {
        -10
    } else if lead < -200 {
        10
    } else {
        0
    }
}

/// The position with this hash occurred before, with the same side to move, since
/// the last capture or pawn move. The last entry is the position itself.
pub open spec fn repeated(history: Seq<u64>, hash: u64, clock: int) -> bool {
    exists|k: int|
        1 <= k && 2 * k <= history.len() - 1 && 2 * k <= clock && #[trigger] history[history.len()
            - 1 - 2 * k] == hash
}

/// Tests for a repetition: one earlier occurrence counts.
pub fn is_repetition(history: &Vec<u64>, hash: u64, halfmove_clock: u16) -> (b: bool)
    ensures
        b == repeated(history@, hash, halfmove_clock as int),
{
    let len: usize = history.len();
    if len < 3 {
        return false;
    }
    let start: usize = if (halfmove_clock as usize) < len {
        len - 1 - halfmove_clock as usize
    } else {
        0
    };
    let mut i: usize = len - 1;
    let ghost mut k: int = 0;
    while i >= 2 && i - 2 >= start
        invariant
            len == history@.len(),
            i == len - 1 - 2 * k,
            k >= 0,
            start == (if halfmove_clock < len {
                len - 1 - halfmove_clock
            } else {
                0
            }),
            forall|j: int|
                1 <= j <= k && 2 * j <= len - 1 ==> #[trigger] history@[len - 1 - 2 * j] != hash,
        decreases i,
    {
        i = i - 2;
        proof {
            k = k + 1;
        }
        if history[i] == hash {
            assert(history@[history@.len() - 1 - 2 * k] == hash);
            return true;
        }
    }
    let ghost last = history@.len() - 1;
    assert forall|j: int| 1 <= j && 2 * j <= last && 2 * j <= halfmove_clock implies #[trigger] history@[
        last - 2 * j
    ] != hash by {
        if j > k {
            assert(len - 1 - 2 * j >= start);
            assert(i - 2 >= len - 1 - 2 * j);
        }
    }
    false
}

// ---- The window ----
/// A window, or the score that closes it.
#[derive(Clone, Copy, PartialEq, Eq, Structural, Debug)]
pub enum Window {
    Open { alpha: i32, beta: i32 },
    Closed(i32),
}

/// The window narrowed to the mates that are still possible at a ply.
pub open spec fn mate_window(alpha: int, beta: int, ply: int) -> (int, int) {
    (at_least(alpha, ply - 29000), at_most(beta, 29000 - ply))
}

/// Narrows the window to the mates that are still possible at a ply. It closes
/// where nothing is left of it.
pub fn narrow_by_mates(alpha: i32, beta: i32, ply: i32) -> (w: Window)
    requires
        alpha < beta,
        0 <= ply <= 128,
    ensures
        match w {
            Window::Open { alpha: a, beta: b } => a < b && (a as int, b as int) == mate_window(
                alpha as int,
                beta as int,
                ply as int,
            ),
            Window::Closed(s) => s == (if alpha >= 29000 - ply {
                29000 - ply
            } else {
                ply - 29000
            }) && (alpha >= 29000 - ply || beta <= ply - 29000),
        },
{
    let mating: i32 = MATE_SCORE - ply;
    let mut b: i32 = beta;
    if mating < b {
        b = mating;
        if alpha >= mating {
            return Window::Closed(mating);
        }
    }
    let mated: i32 = -MATE_SCORE + ply;
    let mut a: i32 = alpha;
    if mated > a {
        a = mated;
        if b <= mated {
            return Window::Closed(mated);
        }
    }
    Window::Open { alpha: a, beta: b }
}

/// A kept score of this kind decides the window.
pub open spec fn cuts(kind: u8, score: int, alpha: int, beta: int) -> bool {
    kind == 1 || (kind == 2 && score >= beta) || (kind == 3 && score <= alpha)
}

pub fn table_cuts(kind: u8, score: i32, alpha: i32, beta: i32) -> (b: bool)
    ensures
        b == cuts(kind, score as int, alpha as int, beta as int),
{
    kind == FLAG_EXACT || (kind == FLAG_LOWER && score >= beta) || (kind == FLAG_UPPER && score
        <= alpha)
}

/// The kind of a result: a lower bound at or above beta, exact if alpha rose,
/// and an upper bound otherwise.
pub fn bound_kind(best: i32, beta: i32, alpha_rose: bool) -> (k: u8)
    ensures
        k == (if best >= beta {
            2u8
        } else if alpha_rose {
            1u8
        } else {
            3u8
        }),
{
    if best >= beta {
        FLAG_LOWER
    } else if alpha_rose {
        FLAG_EXACT
    } else {
        FLAG_UPPER
    }
}

// ---- Pruning and reductions ----
/// A check extends the search while the line is not much longer than the depth.
pub fn extends_check(in_check: bool, ply: i32, depth: i32) -> (b: bool)
    requires
        depth <= 46_340,
    ensures
        b == (in_check && ply < depth + 16),
{
    in_check && ply < depth + 16
}

pub open spec fn param(t: Tunables, i: usize) -> int {
    t.values@[i as int] as int
}

/// Reverse futility: the evaluation stands so far above beta that the node is
/// given up as a win.
pub open spec fn far_above(t: Tunables, improving: bool, depth: int, eval: int, beta: int) -> bool {
    let margin = if improving {
        param(t, RFP_MARGIN_IMP)
    } else {
        param(t, RFP_MARGIN_NIMP)
    };
    depth <= param(t, RFP_DEPTH) && eval - margin * depth >= beta && !decisive(beta)
}

pub fn reverse_futility(t: &Tunables, improving: bool, depth: i32, eval: i32, beta: i32) -> (b: bool)
    requires
        t.in_range(),
        1 <= depth <= 46_340,
        -1_000_000_000 <= eval <= 1_000_000_000,
        -1_000_000_000 <= beta <= 1_000_000_000,
    ensures
        b == far_above(*t, improving, depth as int, eval as int, beta as int),
{
    let margin: i32 = if improving {
        get(t, RFP_MARGIN_IMP)
    } else {
        get(t, RFP_MARGIN_NIMP)
    };
    assert(0 <= margin * depth <= 5_560_800) by (nonlinear_arith)
        requires
            0 <= margin <= 120,
            1 <= depth <= 46_340,
    ;
    depth <= get(t, RFP_DEPTH) && eval - margin * depth >= beta && !is_mate_score(beta)
}

/// How much a null move reduces the depth.
pub open spec fn null_reduction(t: Tunables, depth: int, eval: int, beta: int, improving: bool) -> int {
    param(t, NMP_BASE) + tdiv(depth, param(t, NMP_DEPTH_DIV)) + at_most(
        tdiv(eval - beta, param(t, NMP_EVAL_DIV)),
        param(t, NMP_EVAL_MAX),
    ) + (if improving {
        0int
    } else {
        1int
    })
}

/// A quotient of a number by a positive one is no larger than the number.
proof fn quotient_small(a: int, b: int)
    requires
        a >= 0,
        b >= 1,
    ensures
        0 <= a / b <= a,
{
    assert(0 <= a / b <= a) by (nonlinear_arith)
        requires
            a >= 0,
            b >= 1,
    ;
}

pub fn null_move_reduction(t: &Tunables, depth: i32, eval: i32, beta: i32, improving: bool) -> (r: i32)
    requires
        t.in_range(),
        1 <= depth <= 46_340,
        -1_000_000_000 <= beta <= eval <= 1_000_000_000,
    ensures
        r == null_reduction(*t, depth as int, eval as int, beta as int, improving),
        0 <= r <= depth + 20,
{
    let dd: i32 = get(t, NMP_DEPTH_DIV);
    let ed: i32 = get(t, NMP_EVAL_DIV);
    let em: i32 = get(t, NMP_EVAL_MAX);
    proof {
        quotient_small(depth as int, dd as int);
        quotient_small(eval - beta, ed as int);
    }
    let by_depth: i32 = depth / dd;
    let surplus: i32 = (eval - beta) / ed;
    let by_eval: i32 = if surplus < em {
        surplus
    } else {
        em
    };
    let base: i32 = get(t, NMP_BASE) + by_depth + by_eval;
    if improving {
        base
    } else {
        base + 1
    }
}

/// Razoring: the evaluation stands so far below alpha that only captures can
/// help.
pub fn razors(t: &Tunables, depth: i32, eval: i32, alpha: i32) -> (b: bool)
    requires
        t.in_range(),
        1 <= depth <= 46_340,
        -1_000_000_000 <= eval <= 1_000_000_000,
    ensures
        b == (depth <= param(*t, RAZOR_DEPTH) && eval + param(*t, RAZOR_MARGIN) * depth < alpha),
{
    let margin: i32 = get(t, RAZOR_MARGIN);
    assert(0 <= margin * depth <= 18_536_000) by (nonlinear_arith)
        requires
            0 <= margin <= 400,
            1 <= depth <= 46_340,
    ;
    depth <= get(t, RAZOR_DEPTH) && eval + margin * depth < alpha
}

/// How many moves are searched before late quiet moves are pruned.
pub open spec fn late_count(t: Tunables, improving: bool, depth: int) -> int {
    if improving {
        param(t, LMP_BASE) + depth * depth
    } else {
        (param(t, LMP_BASE) + depth * depth) / 2
    }
}

pub fn late_move_count(t: &Tunables, improving: bool, depth: i32) -> (n: i32)
    requires
        t.in_range(),
        1 <= depth <= 46_340,
    ensures
        n == late_count(*t, improving, depth as int),
        n >= 0,
{
    assert(0 <= depth * depth <= 2_147_395_600) by (nonlinear_arith)
        requires
            1 <= depth <= 46_340,
    ;
    let n: i32 = get(t, LMP_BASE) + depth * depth;
    if improving {
        n
    } else {
        n / 2
    }
}

/// Futility: no quiet move is expected to lift the evaluation to alpha.
pub fn is_futile(t: &Tunables, depth: i32, eval: i32, alpha: i32) -> (b: bool)
    requires
        t.in_range(),
        1 <= depth <= 46_340,
        -1_000_000_000 <= eval <= 1_000_000_000,
    ensures
        b == (depth <= param(*t, FP_DEPTH) && eval + depth * param(*t, FP_MARGIN_MUL) + param(
            *t,
            FP_MARGIN_ADD,
        ) <= alpha),
{
    let mul: i32 = get(t, FP_MARGIN_MUL);
    assert(0 <= depth * mul <= 6_951_000) by (nonlinear_arith)
        requires
            0 <= mul <= 150,
            1 <= depth <= 46_340,
    ;
    depth <= get(t, FP_DEPTH) && eval + depth * mul + get(t, FP_MARGIN_ADD) <= alpha
}

/// History is so bad that a quiet move is pruned.
pub fn bad_history(t: &Tunables, depth: i32, hist_score: i32) -> (b: bool)
    requires
        t.in_range(),
        1 <= depth <= 46_340,
    ensures
        b == (depth <= param(*t, HIST_PRUNE_DEPTH) && hist_score < -param(*t, HIST_PRUNE_MARGIN)
            * depth),
{
    let margin: i32 = get(t, HIST_PRUNE_MARGIN);
    assert(-189_808_640 <= -margin * depth <= 0) by (nonlinear_arith)
        requires
            0 <= margin <= 4096,
            1 <= depth <= 46_340,
    ;
    depth <= get(t, HIST_PRUNE_DEPTH) && hist_score < -margin * depth
}

/// The exchange that a move must reach at a depth.
pub fn exchange_margin(t: &Tunables, depth: i32, captures: bool) -> (m: i32)
    requires
        t.in_range(),
        1 <= depth <= 46_340,
    ensures
        m == -depth * (if captures {
            param(*t, SEE_CAP_MUL)
        } else {
            param(*t, SEE_QUIET_MUL)
        }),
        -9_268_000 <= m <= 0,
{
    let mul: i32 = if captures {
        get(t, SEE_CAP_MUL)
    } else {
        get(t, SEE_QUIET_MUL)
    };
    assert(-9_268_000 <= -depth * mul <= 0) by (nonlinear_arith)
        requires
            0 <= mul <= 200,
            1 <= depth <= 46_340,
    ;
    -depth * mul
}

/// The table's move may be singular: the entry is deep enough, a lower bound or
/// exact, and not decisive.
pub open spec fn may_be_singular(
    t: Tunables,
    depth: int,
    score: Option<i32>,
    entry_depth: int,
    flag: u8,
) -> bool {
    match score {
        Some(s) => depth >= param(t, SE_DEPTH) && !decisive(s as int) && entry_depth >= depth - 3
            && (flag == 2 || flag == 1),
        None => false,
    }
}

pub fn singular_candidate(
    t: &Tunables,
    depth: i32,
    score: Option<i32>,
    entry_depth: i32,
    flag: u8,
) -> (b: bool)
    requires
        t.in_range(),
        1 <= depth <= 46_340,
        score matches Some(s) ==> -1_000_000 <= s <= 1_000_000,
    ensures
        b == may_be_singular(*t, depth as int, score, entry_depth as int, flag),
{
    match score {
        Some(s) => depth >= get(t, SE_DEPTH) && !is_mate_score(s) && entry_depth >= depth - 3 && (
        flag == FLAG_LOWER || flag == FLAG_EXACT),
        None => false,
    }
}

/// A pawn that goes to one of the last three ranks extends the search.
pub fn pawn_runs(side: Color, is_pawn: bool, promotes: bool, to_rank: u8) -> (b: bool)
    ensures
        b == (is_pawn && !promotes && (match side {
            Color::White => to_rank >= 5,
            Color::Black => to_rank <= 2,
        })),
{
    is_pawn && !promotes && match side {
        Color::White => to_rank >= 5,
        Color::Black => to_rank <= 2,
    }
}

} // verus!
