//! Time management: the limits of a search, and the signals that end it.

use crate::num::{at_least, at_most, clamped};
use std::sync::Arc;
use std::sync::atomic::{AtomicBool, Ordering};
use std::time::Instant;
use vstd::prelude::*;

verus! {

// ---- Signals ----
/// What another thread can tell a running search.
pub struct Signals {
    pub stop: Arc<AtomicBool>,
    pub pondering: Arc<AtomicBool>,
    pub allow_ponder: Arc<AtomicBool>,
}

impl Signals {
    /// Nothing is signalled, and pondering is allowed.
    pub fn new() -> Signals {
        Signals {
            stop: Arc::new(AtomicBool::new(false)),
            pondering: Arc::new(AtomicBool::new(false)),
            allow_ponder: Arc::new(AtomicBool::new(true)),
        }
    }

    /// A handle on the same signals.
    pub fn handle(&self) -> (s: Signals)
        ensures
            s == *self,
    {
        Signals {
            stop: Arc::clone(&self.stop),
            pondering: Arc::clone(&self.pondering),
            allow_ponder: Arc::clone(&self.allow_ponder),
        }
    }
}

/// The search has been told to stop.
pub fn should_stop(s: &Signals) -> bool {
    s.stop.load(Ordering::Relaxed)
}

pub fn set_stop(s: &Signals, val: bool) {
    s.stop.store(val, Ordering::Relaxed);
}

/// The search runs on the opponent's clock.
pub fn is_pondering(s: &Signals) -> bool {
    s.pondering.load(Ordering::Relaxed)
}

pub fn set_pondering(s: &Signals, val: bool) {
    s.pondering.store(val, Ordering::Relaxed);
}

/// Ends pondering. The clock keeps running from the start of the search.
pub fn signal_ponderhit(s: &Signals) {
    s.pondering.store(false, Ordering::Relaxed);
}

pub fn allow_ponder(s: &Signals) -> bool {
    s.allow_ponder.load(Ordering::Relaxed)
}

pub fn set_allow_ponder(s: &Signals, val: bool) {
    s.allow_ponder.store(val, Ordering::Relaxed);
}

// ---- The clock ----
/// A reading of the monotonic clock.
#[verifier::external_type_specification]
#[verifier::external_body]
pub struct ExInstant(Instant);

/// `std::time::Instant::now`: the clock's reading. Nothing is claimed of it.
#[verifier::external_body]
fn clock_now() -> (t: Instant) {
    Instant::now()
}

/// `std::time::Instant::elapsed`, in whole milliseconds: the time since a
/// reading. Nothing is claimed of it.
#[verifier::external_body]
fn millis_since(start: &Instant) -> (ms: u64) {
    start.elapsed().as_millis() as u64
}

// ---- Limits ----
/// The limits of a "go" command. Times are in milliseconds.
#[derive(Clone, Copy)]
pub struct TimeControl {
    pub wtime: i64,
    pub btime: i64,
    pub winc: i64,
    pub binc: i64,
    pub movestogo: u32,
    pub movetime: i64,
    pub depth: i32,
    pub infinite: bool,
    pub nodes: u64,
    pub soft_nodes: u64,
}

impl TimeControl {
    /// Only the clock of the side to move limits the search.
    pub open spec fn by_clock(&self) -> bool {
        !self.infinite && self.depth <= 0 && self.movetime <= 0
    }

    /// A running clock limits the search.
    pub open spec fn clock_runs(&self, is_white: bool) -> bool {
        self.by_clock() && self.time_of(is_white) > 0
    }

    pub open spec fn time_of(&self, is_white: bool) -> i64 {
        if is_white {
            self.wtime
        } else {
            self.btime
        }
    }

    pub open spec fn inc_of(&self, is_white: bool) -> i64 {
        if is_white {
            self.winc
        } else {
            self.binc
        }
    }

    /// No limit at all.
    pub fn infinite() -> (t: TimeControl)
        ensures
            t.infinite,
            t.depth == 0,
            t.movetime == 0,
            t.nodes == 0,
            t.soft_nodes == 0,
            t.wtime == 0,
            t.btime == 0,
            t.winc == 0,
            t.binc == 0,
            t.movestogo == 0,
    {
        TimeControl {
            wtime: 0,
            btime: 0,
            winc: 0,
            binc: 0,
            movestogo: 0,
            movetime: 0,
            depth: 0,
            infinite: true,
            nodes: 0,
            soft_nodes: 0,
        }
    }
}

/// What the budget of a move is computed from: the time and the increment, the
/// number of moves that the time must last for, and the speed of the game.
#[derive(Clone, Copy, PartialEq, Eq, Structural, Debug)]
pub struct ClockPlan {
    pub time: i64,
    pub inc: i64,
    pub horizon: i64,
    pub sudden: bool,
    pub bullet: bool,
}

/// The game's base time, captured while the clock is still full.
pub open spec fn base_time_after(base: i64, time: i64, ply: u32) -> i64 {
    if ply <= 1 && time > 0 {
        time
    } else {
        base
    }
}

/// A game of this base time and increment is a bullet game.
pub open spec fn is_bullet(base: int, inc: int) -> bool {
    base > 0 && base + 40 * inc <= 179_000
}

/// How many moves the time must last for: at most 50, and fewer below a second.
pub open spec fn horizon_of(time: int, movestogo: int) -> int {
    if time < 1000 {
        at_least(time / 20, 1)
    } else if movestogo > 0 {
        at_most(movestogo, 50)
    } else {
        50
    }
}

/// Plans the budget of a move by the clock. Captures the base time of the game.
pub fn plan_clock(tc: &TimeControl, is_white: bool, game_ply: u32, game_base: &mut i64) -> (p:
    ClockPlan)
    requires
        tc.time_of(is_white) > 0,
    ensures
        *final(game_base) == base_time_after(*old(game_base), tc.time_of(is_white), game_ply),
        p.time == tc.time_of(is_white),
        p.inc == tc.inc_of(is_white),
        p.horizon == horizon_of(p.time as int, tc.movestogo as int),
        p.sudden == (tc.movestogo == 0),
        p.bullet == is_bullet(*final(game_base) as int, p.inc as int),
{
    let time: i64 = if is_white {
        tc.wtime
    } else {
        tc.btime
    };
    let inc: i64 = if is_white {
        tc.winc
    } else {
        tc.binc
    };
    if game_ply <= 1 {
        *game_base = time;
    }
    let bullet: bool = *game_base > 0 && *game_base as i128 + 40 * inc as i128 <= 179_000;
    let horizon: i64 = if time < 1000 {
        let h: i64 = time / 20;
        if h < 1 {
            1
        } else {
            h
        }
    } else if tc.movestogo > 0 && tc.movestogo < 50 {
        tc.movestogo as i64
    } else {
        50
    };
    ClockPlan { time, inc, horizon, sudden: tc.movestogo == 0, bullet }
}

/// The most that one move may take: the cap of the long games above a minute,
/// and below it 15 percent of the time and the increment, but no less than 50.
pub open spec fn move_cap(time: int, inc: int, long_cap: int) -> int {
    if time > 60_000 {
        long_cap
    } else {
        at_least(time * 15 / 100 + inc, 50)
    }
}

/// The budget of a move: the time that it should take, the time that it may take,
/// and the cap for games of more than a minute, in milliseconds.
#[derive(Clone, Copy, PartialEq, Eq, Structural, Debug)]
pub struct Budget {
    pub optimum: i64,
    pub maximum: i64,
    pub long_cap: i64,
}

impl Budget {
    pub open spec fn wf(&self) -> bool {
        self.optimum >= 0 && self.maximum >= 0 && self.long_cap >= 0
    }

    /// No budget, for a search that no running clock limits.
    pub fn none() -> (b: Budget)
        ensures
            b == (Budget { optimum: 0, maximum: 0, long_cap: 0 }),
    {
        Budget { optimum: 0, maximum: 0, long_cap: 0 }
    }

    /// The hard limit with this time and increment, and a deadline if there is one.
    pub open spec fn hard_limit(&self, time: int, inc: int, deadline: Option<i64>) -> int {
        let capped = at_most(self.maximum as int, move_cap(time, inc, self.long_cap as int));
        match deadline {
            Some(d) => at_most(capped, at_least(d as int, 1)),
            None => capped,
        }
    }
}

/// Limits and progress of a search.
pub struct TimeManager {
    pub signals: Signals,
    pub start: Instant,
    pub base_soft_limit_ms: i64,
    pub base_hard_limit_ms: i64,
    pub soft_limit_ms: i64,
    pub hard_limit_ms: i64,
    pub infinite: bool,
    pub max_depth: i32,
    pub max_nodes: u64,
    pub soft_nodes: u64,
    pub stable_count: u32,
    pub last_best_move: u16,
    pub prev_score: i32,
    /// The factor for the steadiness of the best move, in percent.
    pub stability_percent: u32,
    /// By how much the score rose in the last iteration, at most 100 either way.
    pub score_delta: i32,
    /// The factor for the effort that the best move took, in percent.
    pub node_percent: u32,
    /// The factor for a forced move, in percent.
    pub forced_percent: u32,
    /// How long after the start the search must end, if it must.
    pub deadline_ms: Option<i64>,
}

/// The depth limit of a search.
pub open spec fn depth_limit(tc: TimeControl) -> int {
    if tc.depth > 0 {
        tc.depth as int
    } else {
        100
    }
}

/// The limit of a search that no running clock limits, in milliseconds: none, the
/// fixed time, or 100 for a clock that has run out.
pub open spec fn unbudgeted_limit(tc: TimeControl) -> int {
    if tc.infinite || tc.depth > 0 {
        i64::MAX as int
    } else if tc.movetime > 0 {
        tc.movetime as int
    } else {
        100
    }
}

/// The percentage for a best move that stayed the same `n` times.
pub open spec fn stability_for(n: int) -> int {
    if n == 0 {
        250
    } else if n == 1 {
        120
    } else if n == 2 {
        90
    } else if n == 3 {
        80
    } else {
        75
    }
}

/// The percentage for the share of the nodes that the best move took.
pub open spec fn effort_for(best: int, total: int) -> int {
    if best * 100 > total * 90 {
        50
    } else if best * 100 > total * 80 {
        60
    } else if best * 100 > total * 60 {
        80
    } else if best * 100 < total * 25 {
        150
    } else if best * 100 < total * 35 {
        120
    } else {
        100
    }
}

/// The percentage for a move that is forced or stands out.
pub open spec fn forced_for(count: int, gap: int) -> int {
    if count == 1 {
        1
    } else if gap > 400 {
        39
    } else if gap > 170 {
        63
    } else {
        100
    }
}

/// The factors for a score that rose by -100 to 100 in the last iteration: a half
/// to the power of the rise over 100, in units of 2^-32, rounded.
pub const SWINGS: [u64; 201] = [
    8589934592, 8530599580, 8471674424, 8413156294, 8355042379, 8297329886, 8240016041, 8183098093,
    8126573306, 8070438963, 8014692369, 7959330845, 7904351731, 7849752386, 7795530185, 7741682525,
    7688206817, 7635100494, 7582361002, 7529985809, 7477972398, 7426318269, 7375020942, 7324077951,
    7273486849, 7223245206, 7173350606, 7123800654, 7074592969, 7025725186, 6977194957, 6928999951,
    6881137852, 6833606361, 6786403194, 6739526083, 6692972776, 6646741036, 6600828642, 6555233388,
    6509953083, 6464985553, 6420328635, 6375980186, 6331938074, 6288200183, 6244764411, 6201628673,
    6158790894, 6116249018, 6074001000, 6032044810, 5990378433, 5948999867, 5907907123, 5867098228,
    5826571220, 5786324153, 5746355092, 5706662118, 5667243324, 5628096814, 5589220710, 5550613142,
    5512272257, 5474196211, 5436383176, 5398831334, 5361538882, 5324504028, 5287724992, 5251200007,
    5214927319, 5178905185, 5143131874, 5107605667, 5072324858, 5037287751, 5002492662, 4967937922,
    4933621868, 4899542852, 4865699238, 4832089398, 4798711718, 4765564595, 4732646436, 4699955659,
    4667490694, 4635249981, 4603231970, 4571435124, 4539857915, 4508498826, 4477356350, 4446428991,
    4415715262, 4385213689, 4354922805, 4324841156, 4294967296, 4265299790, 4235837212, 4206578147,
    4177521189, 4148664943, 4120008021, 4091549047, 4063286653, 4035219482, 4007346185, 3979665423,
    3952175866, 3924876193, 3897765093, 3870841262, 3844103409, 3817550247, 3791180501, 3764992905,
    3738986199, 3713159135, 3687510471, 3662038976, 3636743425, 3611622603, 3586675303, 3561900327,
    3537296484, 3512862593, 3488597478, 3464499975, 3440568926, 3416803181, 3393201597, 3369763041,
    3346486388, 3323370518, 3300414321, 3277616694, 3254976542, 3232492776, 3210164318, 3187990093,
    3165969037, 3144100091, 3122382206, 3100814336, 3079395447, 3058124509, 3037000500, 3016022405,
    2995189217, 2974499933, 2953953562, 2933549114, 2913285610, 2893162076, 2873177546, 2853331059,
    2833621662, 2814048407, 2794610355, 2775306571, 2756136128, 2737098106, 2718191588, 2699415667,
    2680769441, 2662252014, 2643862496, 2625600004, 2607463660, 2589452593, 2571565937, 2553802834,
    2536162429, 2518643875, 2501246331, 2483968961, 2466810934, 2449771426, 2432849619, 2416044699,
    2399355859, 2382782298, 2366323218, 2349977830, 2333745347, 2317624990, 2301615985, 2285717562,
    2269928958, 2254249413, 2238678175, 2223214495, 2207857631, 2192606844, 2177461403, 2162420578,
    2147483648,
];

/// The factor for a score that rose by `d`, in units of 2^-32.
#[verifier::opaque]
pub open spec fn swing_for(d: int) -> int {
    SWINGS[100 + d] as int
}

fn swing_of(d: i32) -> (v: u64)
    requires
        -100 <= d <= 100,
    ensures
        v == swing_for(d as int),
        v <= 0x2_0000_0000,
{
    proof {
        reveal(swing_for);
    }
    SWINGS[(100 + d) as usize]
}

/// With a budget of at least one millisecond the limits are at least one millisecond,
/// at the start and under the factors of the iterations.
pub proof fn limits_are_positive(
    t: TimeManager,
    tc: TimeControl,
    white: bool,
    budget: Budget,
    deadline: Option<i64>,
    later: TimeManager,
)
    requires
        t.limited_by(tc, white, budget, deadline),
        tc.clock_runs(white) ==> budget.optimum >= 1 && budget.maximum >= 1 && budget.long_cap >= 1,
        later.scales() == t.scales(),
        if t.scales() {
            later.follows()
        } else {
            later.same_limits(t)
        },
    ensures
        t.soft_limit_ms >= 1,
        t.hard_limit_ms >= 1,
        later.soft_limit_ms >= 1,
        later.hard_limit_ms >= 1,
{
}

/// The product of three percentages and a factor in units of 2^-32.
fn factor_product(a: u32, b: u32, c: u32, swing: u64) -> (p: u64)
    requires
        a <= 250,
        b <= 150,
        c <= 100,
        swing <= 0x2_0000_0000,
    ensures
        p == a * b * c * swing,
        p <= 3_750_000 * 0x2_0000_0000,
{
    assert(a * b <= 37_500) by (nonlinear_arith)
        requires
            0 <= a <= 250,
            0 <= b <= 150,
    ;
    let ab: u32 = a * b;
    assert(ab * c <= 3_750_000) by (nonlinear_arith)
        requires
            0 <= ab <= 37_500,
            0 <= c <= 100,
    ;
    let abc: u32 = ab * c;
    assert(abc * swing <= 3_750_000 * 0x2_0000_0000) by (nonlinear_arith)
        requires
            0 <= abc <= 3_750_000,
            0 <= swing <= 0x2_0000_0000,
    ;
    abc as u64 * swing
}

/// A base limit times a product of factors.
fn scale(base: i64, product: u64) -> (r: i128)
    requires
        base >= 0,
        product <= 3_750_000 * 0x2_0000_0000,
    ensures
        r == base * product / 0xF_4240_0000_0000,
        r >= 0,
{
    assert(0 <= base * product <= 0x8000_0000_0000_0000 * (3_750_000 * 0x2_0000_0000))
        by (nonlinear_arith)
        requires
            0 <= base <= 0x8000_0000_0000_0000,
            0 <= product <= 3_750_000 * 0x2_0000_0000,
    ;
    base as i128 * product as i128 / 0xF_4240_0000_0000
}

/// A limit that is positive, and at most `top` if that is.
fn within(x: i128, top: i64) -> (r: i64)
    ensures
        r == at_least(at_most(x as int, top as int), 1),
{
    let y: i128 = if x < top as i128 {
        x
    } else {
        top as i128
    };
    if y < 1 {
        1
    } else {
        y as i64
    }
}

/// A new iteration may begin: it is free to while pondering or without a limit,
/// and otherwise within 60 percent of the soft limit.
pub open spec fn may_start(pondering: bool, infinite: bool, soft: int, elapsed: int) -> bool {
    pondering || infinite || soft == i64::MAX || elapsed < soft * 60 / 100
}

/// The search must end now. Pondering is never ended by a limit.
pub open spec fn must_end(
    pondering: bool,
    deadline: Option<i64>,
    max_nodes: int,
    nodes: int,
    infinite: bool,
    hard: int,
    elapsed: int,
) -> bool {
    &&& !pondering
    &&& {
        ||| match deadline {
            Some(d) => elapsed >= d,
            None => false,
        }
        ||| max_nodes > 0 && nodes >= max_nodes
        ||| !infinite && hard != i64::MAX && elapsed >= hard
    }
}

/// Whether a new iteration may begin.
pub fn decide_start(pondering: bool, infinite: bool, soft: i64, elapsed: i64) -> (b: bool)
    requires
        soft >= 0,
    ensures
        b == may_start(pondering, infinite, soft as int, elapsed as int),
{
    if pondering || infinite || soft == i64::MAX {
        return true;
    }
    let share: i64 = ((soft as i128) * 60 / 100) as i64;
    elapsed < share
}

/// Whether the search must end now.
pub fn decide_end(
    pondering: bool,
    deadline: Option<i64>,
    max_nodes: u64,
    nodes: u64,
    infinite: bool,
    hard: i64,
    elapsed: i64,
) -> (b: bool)
    ensures
        b == must_end(
            pondering,
            deadline,
            max_nodes as int,
            nodes as int,
            infinite,
            hard as int,
            elapsed as int,
        ),
{
    if pondering {
        return false;
    }
    if let Some(d) = deadline {
        if elapsed >= d {
            return true;
        }
    }
    if max_nodes > 0 && nodes >= max_nodes {
        return true;
    }
    if infinite || hard == i64::MAX {
        return false;
    }
    elapsed >= hard
}

impl TimeManager {
    /// The limits are not negative, a budget bounds them, and the factors are
    /// some that iterations give.
    pub open spec fn wf(&self) -> bool {
        &&& self.soft_limit_ms >= 0
        &&& self.hard_limit_ms >= 0
        &&& self.base_soft_limit_ms >= 0
        &&& self.base_hard_limit_ms >= 0
        &&& self.scales() ==> self.soft_limit_ms <= at_least(self.base_hard_limit_ms as int, 1)
        &&& -1_000_000_000 <= self.prev_score <= 1_000_000_000
        &&& self.stability_percent <= 250
        &&& -100 <= self.score_delta <= 100
        &&& self.node_percent <= 150
        &&& self.forced_percent <= 100
    }

    /// The manager began with another one, and has the same limits to begin with.
    pub open spec fn same_bounds(&self, t: TimeManager) -> bool {
        &&& self.signals == t.signals
        &&& self.start == t.start
        &&& self.base_soft_limit_ms == t.base_soft_limit_ms
        &&& self.base_hard_limit_ms == t.base_hard_limit_ms
        &&& self.infinite == t.infinite
        &&& self.max_depth == t.max_depth
        &&& self.max_nodes == t.max_nodes
        &&& self.soft_nodes == t.soft_nodes
        &&& self.deadline_ms == t.deadline_ms
        &&& !self.scales() ==> self.same_limits(t)
    }

    /// The limits are those of another manager.
    pub open spec fn same_limits(&self, t: TimeManager) -> bool {
        self.hard_limit_ms == t.hard_limit_ms && self.soft_limit_ms == t.soft_limit_ms
    }

    /// A base limit under the four factors.
    pub open spec fn scaled(&self, base: int) -> int {
        base * (self.stability_percent * self.node_percent * self.forced_percent * swing_for(
            self.score_delta as int,
        )) / 0xF_4240_0000_0000
    }

    /// The hard limit under the factors: it never grows beyond its base.
    pub open spec fn scaled_hard(&self) -> int {
        at_least(
            at_most(self.scaled(self.base_hard_limit_ms as int), self.base_hard_limit_ms as int),
            1,
        )
    }

    /// The soft limit under the factors: it grows to two and a half times its base
    /// at most, and not beyond the hard limit.
    pub open spec fn scaled_soft(&self) -> int {
        at_least(
            at_most(
                at_most(
                    self.scaled(self.base_soft_limit_ms as int),
                    self.base_soft_limit_ms * 5 / 2,
                ),
                self.scaled_hard(),
            ),
            1,
        )
    }

    /// The limits are those under the factors.
    pub open spec fn follows(&self) -> bool {
        self.scales() ==> self.hard_limit_ms == self.scaled_hard() && self.soft_limit_ms
            == self.scaled_soft()
    }

    /// The limits follow the factors: the search has a budget by the clock.
    pub open spec fn scales(&self) -> bool {
        !self.infinite && self.base_hard_limit_ms != i64::MAX
    }

    /// No limit of the time ends the search between two iterations.
    pub open spec fn untimed(&self) -> bool {
        self.infinite || self.soft_limit_ms == i64::MAX
    }

    fn unlimited(tc: &TimeControl, deadline_ms: Option<i64>) -> (t: TimeManager)
        ensures
            t.wf(),
            t.base_soft_limit_ms == i64::MAX,
            t.base_hard_limit_ms == i64::MAX,
            t.soft_limit_ms == i64::MAX,
            t.hard_limit_ms == i64::MAX,
            t.infinite == tc.infinite,
            t.max_depth == depth_limit(*tc),
            t.max_nodes == tc.nodes,
            t.soft_nodes == tc.soft_nodes,
            t.fresh(),
            t.deadline_ms == deadline_ms,
    {
        TimeManager {
            signals: Signals::new(),
            start: clock_now(),
            base_soft_limit_ms: i64::MAX,
            base_hard_limit_ms: i64::MAX,
            soft_limit_ms: i64::MAX,
            hard_limit_ms: i64::MAX,
            infinite: tc.infinite,
            max_depth: if tc.depth > 0 {
                tc.depth
            } else {
                100
            },
            max_nodes: tc.nodes,
            soft_nodes: tc.soft_nodes,
            stable_count: 0,
            last_best_move: 0,
            prev_score: 0,
            stability_percent: 100,
            score_delta: 0,
            node_percent: 100,
            forced_percent: 100,
            deadline_ms,
        }
    }

    /// No iteration has been noted yet.
    pub open spec fn fresh(&self) -> bool {
        &&& self.stable_count == 0
        &&& self.last_best_move == 0
        &&& self.prev_score == 0
        &&& self.stability_percent == 100
        &&& self.score_delta == 0
        &&& self.node_percent == 100
        &&& self.forced_percent == 100
    }

    /// The limits of a search: none for an infinite one or one to a depth, the
    /// fixed time, 100 ms if the clock has run out, and else those of the budget.
    pub fn new(tc: &TimeControl, is_white: bool, budget: Budget) -> (t: TimeManager)
        requires
            budget.wf(),
        ensures
            t.limited_by(*tc, is_white, budget, None),
    {
        Self::build(tc, is_white, budget, None)
    }

    /// The same with a deadline, in milliseconds from now, which caps the budget.
    pub fn with_deadline(tc: &TimeControl, is_white: bool, budget: Budget, deadline_ms: i64) -> (t:
        TimeManager)
        requires
            budget.wf(),
        ensures
            t.limited_by(*tc, is_white, budget, Some(deadline_ms)),
    {
        Self::build(tc, is_white, budget, Some(deadline_ms))
    }

    /// The limits are those for a time control, a budget and a deadline.
    pub open spec fn limited_by(
        &self,
        tc: TimeControl,
        white: bool,
        budget: Budget,
        deadline: Option<i64>,
    ) -> bool {
        &&& self.wf()
        &&& self.fresh()
        &&& self.infinite == tc.infinite
        &&& self.max_depth == depth_limit(tc)
        &&& self.max_nodes == tc.nodes
        &&& self.soft_nodes == tc.soft_nodes
        &&& self.deadline_ms == deadline
        &&& self.scales() ==> tc.clock_runs(white)
        &&& if tc.clock_runs(white) {
            let hard = budget.hard_limit(
                tc.time_of(white) as int,
                tc.inc_of(white) as int,
                deadline,
            );
            &&& self.hard_limit_ms == hard
            &&& self.soft_limit_ms == at_most(budget.optimum as int, hard)
            &&& self.base_hard_limit_ms == self.hard_limit_ms
            &&& self.base_soft_limit_ms == self.soft_limit_ms
        } else {
            &&& self.hard_limit_ms == unbudgeted_limit(tc)
            &&& self.soft_limit_ms == self.hard_limit_ms
            &&& self.base_hard_limit_ms == i64::MAX
            &&& self.base_soft_limit_ms == i64::MAX
        }
    }

    fn build(tc: &TimeControl, is_white: bool, budget: Budget, deadline_ms: Option<i64>) -> (t:
        TimeManager)
        requires
            budget.wf(),
        ensures
            t.limited_by(*tc, is_white, budget, deadline_ms),
    {
        let mut t: TimeManager = Self::unlimited(tc, deadline_ms);
        if tc.infinite || tc.depth > 0 {
            return t;
        }
        if tc.movetime > 0 {
            t.soft_limit_ms = tc.movetime;
            t.hard_limit_ms = tc.movetime;
            return t;
        }
        let time: i64 = if is_white {
            tc.wtime
        } else {
            tc.btime
        };
        let inc: i64 = if is_white {
            tc.winc
        } else {
            tc.binc
        };
        if time <= 0 {
            t.soft_limit_ms = 100;
            t.hard_limit_ms = 100;
            return t;
        }
        let cap: i128 = if time > 60_000 {
            budget.long_cap as i128
        } else {
            let c: i128 = time as i128 * 15 / 100 + inc as i128;
            if c < 50 {
                50
            } else {
                c
            }
        };
        let mut hard: i64 = if (budget.maximum as i128) < cap {
            budget.maximum
        } else {
            cap as i64
        };
        if let Some(d) = deadline_ms {
            let left: i64 = if d < 1 {
                1
            } else {
                d
            };
            if left < hard {
                hard = left;
            }
        }
        let soft: i64 = if budget.optimum < hard {
            budget.optimum
        } else {
            hard
        };
        t.hard_limit_ms = hard;
        t.soft_limit_ms = soft;
        t.base_hard_limit_ms = hard;
        t.base_soft_limit_ms = soft;
        t
    }

    /// Milliseconds since the search began.
    pub fn elapsed_ms(&self) -> (ms: i64)
        ensures
            ms >= 0,
    {
        let ms: u64 = millis_since(&self.start);
        if ms > 0x7fff_ffff_ffff_ffff {
            i64::MAX
        } else {
            ms as i64
        }
    }

    /// A new iteration may begin, by the signals and the clock as they are now. What
    /// they say decides together with the limits, as in `decide_start`.
    pub fn can_start_iteration(&self) -> (b: bool)
        requires
            self.wf(),
        ensures
            exists|pondering: bool, elapsed: int|
                elapsed >= 0 && b == #[trigger] may_start(
                    pondering,
                    self.infinite,
                    self.soft_limit_ms as int,
                    elapsed,
                ),
            self.infinite || self.soft_limit_ms == i64::MAX ==> b,
    {
        let pondering: bool = is_pondering(&self.signals);
        let elapsed: i64 = self.elapsed_ms();
        let b: bool = decide_start(pondering, self.infinite, self.soft_limit_ms, elapsed);
        assert(b == may_start(
            pondering,
            self.infinite,
            self.soft_limit_ms as int,
            elapsed as int,
        ));
        b
    }

    /// The search must end by these limits, with the pondering signal and the time
    /// since its start as given.
    pub open spec fn must_end_at(&self, nodes: u64, pondering: bool, elapsed: int) -> bool {
        must_end(
            pondering,
            self.deadline_ms,
            self.max_nodes as int,
            nodes as int,
            self.infinite,
            self.hard_limit_ms as int,
            elapsed,
        )
    }

    /// The search must end, by the signals and the clock as they are now. What they
    /// say decides together with the limits, as in `decide_end`.
    pub fn should_stop_hard(&self, nodes: u64) -> (b: bool)
        ensures
            exists|pondering: bool, elapsed: int|
                elapsed >= 0 && b == #[trigger] self.must_end_at(nodes, pondering, elapsed),
            b ==> self.deadline_ms is Some || (self.max_nodes > 0 && nodes >= self.max_nodes) || (
            !self.infinite && self.hard_limit_ms != i64::MAX),
    {
        let pondering: bool = is_pondering(&self.signals);
        let elapsed: i64 = self.elapsed_ms();
        let b: bool = decide_end(
            pondering,
            self.deadline_ms,
            self.max_nodes,
            nodes,
            self.infinite,
            self.hard_limit_ms,
            elapsed,
        );
        assert(b == self.must_end_at(nodes, pondering, elapsed as int));
        b
    }

    /// Sets the limits to those under the factors, if there is a budget.
    fn apply_factors(&mut self)
        requires
            old(self).wf(),
        ensures
            final(self).wf(),
            final(self).follows(),
            *final(self) == (if old(self).scales() {
                TimeManager {
                    hard_limit_ms: old(self).scaled_hard() as i64,
                    soft_limit_ms: old(self).scaled_soft() as i64,
                    ..*old(self)
                }
            } else {
                *old(self)
            }),
    {
        if self.infinite || self.base_hard_limit_ms == i64::MAX {
            return ;
        }
        let product: u64 = factor_product(
            self.stability_percent,
            self.node_percent,
            self.forced_percent,
            swing_of(self.score_delta),
        );
        let base: i64 = self.base_hard_limit_ms;
        let hard: i64 = within(scale(base, product), base);
        let soft_base: i64 = self.base_soft_limit_ms;
        let ceiling: i128 = soft_base as i128 * 5 / 2;
        let wanted: i128 = scale(soft_base, product);
        let soft: i64 = within(
            if wanted < ceiling {
                wanted
            } else {
                ceiling
            },
            hard,
        );
        self.hard_limit_ms = hard;
        self.soft_limit_ms = soft;
    }

    /// Notes whether the move is forced: how many root moves there are, and by
    /// how much the best one stands out.
    pub fn update_forced(&mut self, root_moves_count: u32, eval_diff_cp: i32)
        requires
            old(self).wf(),
        ensures
            final(self).wf(),
            final(self).follows(),
            *final(self) == (TimeManager {
                forced_percent: if old(self).scales() {
                    forced_for(root_moves_count as int, eval_diff_cp as int) as u32
                } else {
                    old(self).forced_percent
                },
                hard_limit_ms: final(self).hard_limit_ms,
                soft_limit_ms: final(self).soft_limit_ms,
                ..*old(self)
            }),
            !old(self).scales() ==> *final(self) == *old(self),
    {
        if self.infinite || self.base_hard_limit_ms == i64::MAX {
            return ;
        }
        self.forced_percent = if root_moves_count == 1 {
            1
        } else if eval_diff_cp > 400 {
            39
        } else if eval_diff_cp > 170 {
            63
        } else {
            100
        };
        self.apply_factors();
    }

    /// Notes the best move of an iteration.
    pub fn update_best_move(&mut self, best_move: u16)
        requires
            old(self).wf(),
        ensures
            final(self).wf(),
            final(self).follows(),
            final(self).stable_count == (if best_move == old(self).last_best_move {
                at_most(old(self).stable_count + 1, u32::MAX as int)
            } else {
                0
            }),
            *final(self) == (TimeManager {
                stable_count: final(self).stable_count,
                last_best_move: best_move,
                stability_percent: stability_for(final(self).stable_count as int) as u32,
                hard_limit_ms: final(self).hard_limit_ms,
                soft_limit_ms: final(self).soft_limit_ms,
                ..*old(self)
            }),
            !old(self).scales() ==> final(self).same_limits(*old(self)),
    {
        if best_move == self.last_best_move {
            if self.stable_count < u32::MAX {
                self.stable_count = self.stable_count + 1;
            }
        } else {
            self.stable_count = 0;
            self.last_best_move = best_move;
        }
        self.stability_percent = if self.stable_count == 0 {
            250
        } else if self.stable_count == 1 {
            120
        } else if self.stable_count == 2 {
            90
        } else if self.stable_count == 3 {
            80
        } else {
            75
        };
        self.apply_factors();
    }

    /// Notes the score of an iteration.
    pub fn update_score(&mut self, score: i32, depth: i32)
        requires
            -1_000_000_000 <= score <= 1_000_000_000,
            old(self).wf(),
        ensures
            final(self).wf(),
            depth > 4 ==> final(self).follows(),
            *final(self) == (TimeManager {
                prev_score: score,
                score_delta: if depth > 4 && old(self).scales() {
                    clamped(score - old(self).prev_score, -100, 100) as i32
                } else {
                    old(self).score_delta
                },
                hard_limit_ms: final(self).hard_limit_ms,
                soft_limit_ms: final(self).soft_limit_ms,
                ..*old(self)
            }),
            depth <= 4 || !old(self).scales() ==> final(self).same_limits(*old(self)),
    {
        if depth <= 4 || self.infinite || self.base_hard_limit_ms == i64::MAX {
            self.prev_score = score;
            return ;
        }
        let d: i32 = score - self.prev_score;
        self.score_delta = if d < -100 {
            -100
        } else if d > 100 {
            100
        } else {
            d
        };
        self.prev_score = score;
        self.apply_factors();
    }

    /// Notes which share of the nodes the best move took.
    pub fn update_node_fraction(&mut self, best_move_nodes: u64, total_nodes: u64)
        requires
            old(self).wf(),
        ensures
            final(self).wf(),
            total_nodes > 0 ==> final(self).follows(),
            *final(self) == (TimeManager {
                node_percent: if total_nodes > 0 && old(self).scales() {
                    effort_for(best_move_nodes as int, total_nodes as int) as u32
                } else {
                    old(self).node_percent
                },
                hard_limit_ms: final(self).hard_limit_ms,
                soft_limit_ms: final(self).soft_limit_ms,
                ..*old(self)
            }),
            total_nodes == 0 || !old(self).scales() ==> *final(self) == *old(self),
    {
        if total_nodes == 0 || self.infinite || self.base_hard_limit_ms == i64::MAX {
            return ;
        }
        let best: u128 = best_move_nodes as u128 * 100;
        let total: u128 = total_nodes as u128;
        self.node_percent = if best > total * 90 {
            50
        } else if best > total * 80 {
            60
        } else if best > total * 60 {
            80
        } else if best < total * 25 {
            150
        } else if best < total * 35 {
            120
        } else {
            100
        };
        self.apply_factors();
    }

    pub fn max_depth(&self) -> (d: i32)
        ensures
            d == self.max_depth,
    {
        self.max_depth
    }

    /// No further iteration should begin: the soft node limit is reached.
    pub fn should_stop_soft(&self, nodes: u64) -> (b: bool)
        ensures
            b == (self.soft_nodes > 0 && nodes >= self.soft_nodes),
    {
        self.soft_nodes > 0 && nodes >= self.soft_nodes
    }
}

} // verus!
