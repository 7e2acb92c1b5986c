//! What quiescence sees: which moves it looks at, and what it makes of them.

use crate::board::{after, Position};
use crate::decide::{cuts, seen_score};
use crate::model::{
    position_value, quiesced, quiesced_moves, quiet_order, quiet_orders, Mind, Stand,
};
use crate::movegen::{all_moves, capture_moves};
use crate::num::at_least;
use crate::ordering::{first_best, is_first_best, see_at_least, swapped, OrderingInputs};
use crate::quiet::{evades, hopeless, prize};
use crate::rules::{
    all_moves_are_pseudo_legal, capture_moves_are_the_captures, legal, legal_moves,
    legal_moves_are_legal, playable, sound_facts,
};
use crate::types::{type_of, Move, PieceType};
use vstd::prelude::*;

verus! {

/// The moves that are looked at, one after the other: what is known before each of
/// them and after the last, the lower limit then, and the score of each.
pub struct Looks {
    pub moves: Seq<Move>,
    pub minds: Seq<Mind>,
    pub limits: Seq<int>,
    pub scores: Seq<int>,
}

/// Each look is the quiescence of the position after the move, with what is known and
/// the limit that the looks before it have left.
spec fn follow(t: Looks, s: Mind, p: Position, limit: int, beta: int, ply: int) -> bool {
    &&& t.minds.len() == t.moves.len() + 1
    &&& t.limits.len() == t.moves.len() + 1
    &&& t.scores.len() == t.moves.len()
    &&& t.minds[0] == s
    &&& t.limits[0] == limit
    &&& forall|j: int|
        0 <= j < t.moves.len() ==> {
            let c = quiesced(
                t.minds[j],
                after(p, #[trigger] t.moves[j]),
                -beta,
                -t.limits[j],
                ply + 1,
            );
            &&& legal(p, t.moves[j])
            &&& t.scores[j] == -c.score
            &&& t.minds[j + 1] == c.mind && !c.mind.stopped
            &&& t.limits[j + 1] == if t.limits[j] >= t.scores[j] {
                t.limits[j]
            } else {
                t.scores[j]
            }
        }
}

proof fn looked_first(t: Looks, s: Mind, p: Position, limit: int, beta: int, ply: int, mv: Move) -> (r:
    Looks)
    requires
        legal(p, mv),
        !quiesced(s, after(p, mv), -beta, -limit, ply + 1).mind.stopped,
        ({
            let c = quiesced(s, after(p, mv), -beta, -limit, ply + 1);
            follow(
                t,
                c.mind,
                p,
                if limit >= -c.score {
                    limit
                } else {
                    -c.score
                },
                beta,
                ply,
            )
        }),
    ensures
        follow(r, s, p, limit, beta, ply),
        r.moves == seq![mv] + t.moves,
        r.scores == seq![-quiesced(s, after(p, mv), -beta, -limit, ply + 1).score] + t.scores,
        r.minds.last() == t.minds.last(),
{
    let c = quiesced(s, after(p, mv), -beta, -limit, ply + 1);
    let r = Looks {
        moves: seq![mv] + t.moves,
        minds: seq![s] + t.minds,
        limits: seq![limit] + t.limits,
        scores: seq![-c.score] + t.scores,
    };
    assert forall|j: int| 0 <= j < r.moves.len() implies ({
        let c = quiesced(
            r.minds[j],
            after(p, #[trigger] r.moves[j]),
            -beta,
            -r.limits[j],
            ply + 1,
        );
        &&& legal(p, r.moves[j])
        &&& r.scores[j] == -c.score
        &&& r.minds[j + 1] == c.mind && !c.mind.stopped
        &&& r.limits[j + 1] == if r.limits[j] >= r.scores[j] {
            r.limits[j]
        } else {
            r.scores[j]
        }
    }) by {
        if j > 0 {
            assert(r.moves[j] == t.moves[j - 1]);
        }
    }
    r
}

/// The move is looked at unless the material that it wins is too little.
spec fn worth_a_look(p: Position, ply: int, mv: Move) -> bool {
    ||| evades(p, ply)
    ||| type_of(p.mailbox@[mv.src()] as int).num() <= OrderingInputs::victim(p, mv).num()
    ||| OrderingInputs::victim(p, mv) == PieceType::Queen
    ||| see_at_least(p, mv, 0)
}

spec fn passed_over(p: Position, ply: int, mv: Move, value: int, limit: int) -> bool {
    !evades(p, ply) && value + prize(p, mv.dst()) + 200 < limit && !mv.promotes()
}

/// There is a best score among some.
pub(crate) proof fn best_exists(scores: Seq<i32>, i: int)
    requires
        0 <= i < scores.len(),
    ensures
        is_first_best(scores, i, first_best(scores, i)),
    decreases scores.len() - i,
{
    let n = scores.len() as int;
    if i + 1 < n {
        best_exists(scores, i + 1);
        let k = first_best(scores, i + 1);
        if scores[i] >= scores[k] {
            assert(is_first_best(scores, i, i));
        } else {
            assert(is_first_best(scores, i, k));
        }
    } else {
        assert(is_first_best(scores, i, i));
    }
}

/// Where an element from an index on has gone after an exchange.
proof fn swap_goes<T>(s: Seq<T>, i: int, k: int, m: int) -> (h: int)
    requires
        0 <= i <= k < s.len(),
        i <= m < s.len(),
        m != k,
    ensures
        i + 1 <= h < s.len(),
        swapped(s, i, k)[h] == s[m],
{
    if m == i {
        k
    } else {
        m
    }
}

/// Where an element has been before an exchange.
proof fn swap_comes<T>(s: Seq<T>, i: int, k: int, h: int) -> (m: int)
    requires
        0 <= i <= k < s.len(),
        i + 1 <= h < s.len(),
    ensures
        i <= m < s.len(),
        swapped(s, i, k)[h] == s[m],
        m == if h == k {
            i
        } else {
            h
        },
{
    if h == k {
        i
    } else {
        h
    }
}

/// One more move of quiescence: at the end the best score stands; otherwise the next
/// move in order is passed over, cuts, or goes into what is known.
proof fn next_look(
    s: Mind,
    p: Position,
    alpha: int,
    beta: int,
    ply: int,
    list: Seq<Move>,
    scores: Seq<i32>,
    i: int,
    x: Stand,
)
    requires
        ply < 127,
    ensures
        ({
            let w = quiesced_moves(s, p, alpha, beta, ply, list, scores, i, x);
            let k = first_best(scores, i);
            let mv = list[k];
            let l = swapped(list, i, k);
            let o = swapped(scores, i, k);
            let c = quiesced(s, after(p, mv), -beta, -x.alpha, ply + 1);
            if i >= list.len() {
                w.score == if evades(p, ply) && x.legal == 0 {
                    ply - 29000
                } else {
                    x.best
                }
            } else if (!evades(p, ply) && hopeless(p, mv, x.stand_pat, x.alpha)) || !legal(p, mv) {
                w == quiesced_moves(s, p, alpha, beta, ply, l, o, i + 1, x)
            } else if c.mind.stopped {
                w.mind.stopped
            } else if -c.score >= beta {
                w.score == -c.score
            } else {
                w == quiesced_moves(c.mind, p, alpha, beta, ply, l, o, i + 1, weighed(x, mv, -c.score))
            }
        }),
{
    reveal(quiesced_moves);
    reveal(quiesced);
}

spec fn weighed(x: Stand, mv: Move, score: int) -> Stand {
    Stand {
        stand_pat: x.stand_pat,
        alpha: at_least(x.alpha, score),
        best: at_least(x.best, score),
        best_move: if score > x.alpha {
            mv
        } else {
            x.best_move
        },
        legal: x.legal + 1,
    }
}

/// The looks are at moves of the list, from the best on, and the score is at least what
/// each of them shows.
#[verifier::opaque]
spec fn within(t: Looks, list: Seq<Move>, i: int, order: spec_fn(Move) -> int, r: int) -> bool {
    &&& t.moves.no_duplicates()
    &&& forall|a: int, b: int|
        0 <= a <= b < t.moves.len() ==> order(#[trigger] t.moves[a]) >= order(#[trigger] t.moves[b])
    &&& forall|j: int|
        0 <= j < t.moves.len() ==> r >= #[trigger] t.scores[j] && exists|k: int|
            i <= k < list.len() && #[trigger] list[k] == t.moves[j]
}

/// The move is seen, or beta is reached, or it is passed over with reason.
spec fn seen_or_not(
    t: Looks,
    p: Position,
    ply: int,
    mv: Move,
    value: int,
    alpha: int,
    beta: int,
    r: int,
) -> bool {
    ||| !legal(p, mv)
    ||| !worth_a_look(p, ply, mv)
    ||| r >= beta && t.moves.len() > 0
    ||| t.moves.contains(mv)
    ||| passed_over(p, ply, mv, value, at_least(alpha, r))
}

#[verifier::opaque]
spec fn covers(
    t: Looks,
    p: Position,
    ply: int,
    list: Seq<Move>,
    i: int,
    value: int,
    alpha: int,
    beta: int,
    r: int,
) -> bool {
    forall|k: int|
        i <= k < list.len() ==> #[trigger] seen_or_not(t, p, ply, list[k], value, alpha, beta, r)
}

proof fn within_swapped(
    t: Looks,
    list: Seq<Move>,
    i: int,
    k: int,
    order: spec_fn(Move) -> int,
    r: int,
)
    requires
        0 <= i <= k < list.len(),
        within(t, swapped(list, i, k), i + 1, order, r),
    ensures
        within(t, list, i, order, r),
{
    reveal(within);
    let l = swapped(list, i, k);
    assert forall|j: int| 0 <= j < t.moves.len() implies r >= #[trigger] t.scores[j] && exists|k: int|
        i <= k < list.len() && #[trigger] list[k] == t.moves[j] by {
        assert(r >= t.scores[j]);
        let h = choose|h: int| i + 1 <= h < l.len() && #[trigger] l[h] == t.moves[j];
        let m = swap_comes(list, i, k, h);
        assert(list[m] == t.moves[j]);
    }
}

proof fn within_grows(
    t: Looks,
    rest: Looks,
    list: Seq<Move>,
    scores: Seq<i32>,
    i: int,
    k: int,
    order: spec_fn(Move) -> int,
    score: int,
    r: int,
)
    requires
        0 <= i,
        is_first_best(scores, i, k),
        scores.len() == list.len(),
        list.no_duplicates(),
        forall|k: int| i <= k < list.len() ==> #[trigger] scores[k] == order(list[k]),
        within(rest, swapped(list, i, k), i + 1, order, r),
        rest.scores.len() == rest.moves.len(),
        t.moves == seq![list[k]] + rest.moves,
        t.scores == seq![score] + rest.scores,
        r >= score,
    ensures
        within(t, list, i, order, r),
{
    within_swapped(rest, list, i, k, order, r);
    let l = swapped(list, i, k);
    assert forall|j: int| 0 <= j < rest.moves.len() implies #[trigger] rest.moves[j] != list[k] by {
        reveal(within);
        assert(rest.scores[j] <= r);
        let h = choose|h: int| i + 1 <= h < l.len() && #[trigger] l[h] == rest.moves[j];
        let m = swap_comes(list, i, k, h);
        assert(m != k);
    }
    reveal(within);
    assert(t.moves.no_duplicates()) by {
        assert forall|a: int, b: int| 0 <= a < b < t.moves.len() implies t.moves[a] != t.moves[b] by {
            assert(t.moves[b] == rest.moves[b - 1]);
            if a > 0 {
                assert(t.moves[a] == rest.moves[a - 1]);
            }
        }
    }
    assert forall|a: int, b: int| 0 <= a <= b < t.moves.len() implies order(#[trigger] t.moves[a])
        >= order(#[trigger] t.moves[b]) by {
        if a > 0 {
            assert(t.moves[a] == rest.moves[a - 1]);
            assert(t.moves[b] == rest.moves[b - 1]);
        } else if b > 0 {
            assert(t.moves[b] == rest.moves[b - 1]);
            assert(rest.scores[b - 1] <= r);
            let m = choose|m: int| i <= m < list.len() && #[trigger] list[m] == rest.moves[b - 1];
            assert(scores[m] == order(list[m]));
            assert(scores[k] == order(list[k]));
            assert(scores[m] <= scores[k]);
        }
    }
    assert forall|j: int| 0 <= j < t.moves.len() implies r >= #[trigger] t.scores[j] && exists|k: int|
        i <= k < list.len() && #[trigger] list[k] == t.moves[j] by {
        if j > 0 {
            assert(t.scores[j] == rest.scores[j - 1]);
            assert(t.moves[j] == rest.moves[j - 1]);
        } else {
            assert(list[k] == t.moves[0]);
        }
    }
}

proof fn covers_grows(
    t: Looks,
    rest: Looks,
    p: Position,
    ply: int,
    list: Seq<Move>,
    i: int,
    k: int,
    value: int,
    alpha: int,
    beta: int,
    r: int,
)
    requires
        0 <= i <= k < list.len(),
        covers(rest, p, ply, swapped(list, i, k), i + 1, value, alpha, beta, r),
        t.moves == rest.moves || t.moves == seq![list[k]] + rest.moves,
        seen_or_not(t, p, ply, list[k], value, alpha, beta, r),
    ensures
        covers(t, p, ply, list, i, value, alpha, beta, r),
{
    reveal(covers);
    let l = swapped(list, i, k);
    assert forall|m: int| i <= m < list.len() implies #[trigger] seen_or_not(
        t,
        p,
        ply,
        list[m],
        value,
        alpha,
        beta,
        r,
    ) by {
        if m != k {
            let h = swap_goes(list, i, k, m);
            assert(seen_or_not(rest, p, ply, l[h], value, alpha, beta, r));
            if rest.moves.contains(list[m]) {
                let j = choose|j: int| 0 <= j < rest.moves.len() && rest.moves[j] == list[m];
                if t.moves != rest.moves {
                    assert(t.moves[j + 1] == list[m]);
                } else {
                    assert(t.moves[j] == list[m]);
                }
            }
        }
    }
}

/// What the looks at the moves from index `i` on come to.
#[verifier::rlimit(40)]
proof fn looks_from(
    s: Mind,
    p: Position,
    alpha: int,
    beta: int,
    ply: int,
    list: Seq<Move>,
    scores: Seq<i32>,
    i: int,
    x: Stand,
    order: spec_fn(Move) -> int,
) -> (t: Looks)
    requires
        0 <= i,
        forall|k: int| i <= k < list.len() ==> #[trigger] scores[k] == order(list[k]),
        0 <= ply < 127,
        list.len() == scores.len(),
        list.no_duplicates(),
        x.alpha < beta,
        x.alpha == at_least(alpha, x.best),
        evades(p, ply) && x.legal == 0 ==> x.best == -30000,
        x.legal >= 0,
        !quiesced_moves(s, p, alpha, beta, ply, list, scores, i, x).mind.stopped,
    ensures
        follow(t, s, p, x.alpha, beta, ply),
        ({
            let r = quiesced_moves(s, p, alpha, beta, ply, list, scores, i, x).score;
            let n = t.moves.len();
            &&& r >= x.best
            &&& within(t, list, i, order, r)
            &&& covers(t, p, ply, list, i, x.stand_pat, alpha, beta, r)
            &&& evades(p, ply) && x.legal == 0 && n == 0 ==> r == ply - 29000
            &&& !(evades(p, ply) && x.legal == 0 && n == 0) ==> r == x.best || (exists|j: int|
                0 <= j < n && r == #[trigger] t.scores[j])
        }),
    decreases list.len() - i,
{
    next_look(s, p, alpha, beta, ply, list, scores, i, x);
    let r = quiesced_moves(s, p, alpha, beta, ply, list, scores, i, x).score;
    let none = Looks {
        moves: Seq::empty(),
        minds: seq![s],
        limits: seq![x.alpha],
        scores: Seq::empty(),
    };
    if i >= list.len() {
        reveal(within);
        reveal(covers);
        none
    } else {
        best_exists(scores, i);
        let k = first_best(scores, i);
        let mv = list[k];
        let l = swapped(list, i, k);
        let o = swapped(scores, i, k);
        assert(l.no_duplicates());
        assert forall|m: int| i + 1 <= m < l.len() implies #[trigger] o[m] == order(l[m]) by {
            let h = swap_comes(list, i, k, m);
            assert(scores[h] == order(list[h]));
        }
        if (!evades(p, ply) && hopeless(p, mv, x.stand_pat, x.alpha)) || !legal(p, mv) {
            let t = looks_from(s, p, alpha, beta, ply, l, o, i + 1, x, order);
            within_swapped(t, list, i, k, order, r);
            assert(seen_or_not(t, p, ply, mv, x.stand_pat, alpha, beta, r));
            covers_grows(t, t, p, ply, list, i, k, x.stand_pat, alpha, beta, r);
            t
        } else {
            let c = quiesced(s, after(p, mv), -beta, -x.alpha, ply + 1);
            let score = -c.score;
            if c.mind.stopped {
                none
            } else if score >= beta {
                let rest = Looks {
                    moves: Seq::empty(),
                    minds: seq![c.mind],
                    limits: seq![at_least(x.alpha, score)],
                    scores: Seq::empty(),
                };
                let t = looked_first(rest, s, p, x.alpha, beta, ply, mv);
                assert(t.scores[0] == score);
                assert(within(rest, l, i + 1, order, r)) by {
                    reveal(within);
                }
                within_grows(t, rest, list, scores, i, k, order, score, r);
                reveal(covers);
                t
            } else {
                let y = weighed(x, mv, score);
                let rest = looks_from(c.mind, p, alpha, beta, ply, l, o, i + 1, y, order);
                let t = looked_first(rest, s, p, x.alpha, beta, ply, mv);
                assert(t.scores[0] == score);
                assert(t.moves[0] == mv);
                within_grows(t, rest, list, scores, i, k, order, score, r);
                covers_grows(t, rest, p, ply, list, i, k, x.stand_pat, alpha, beta, r);
                if exists|j: int| 0 <= j < rest.moves.len() && r == #[trigger] rest.scores[j] {
                    let j = choose|j: int|
                        0 <= j < rest.moves.len() && r == #[trigger] rest.scores[j];
                    assert(t.scores[j + 1] == r);
                }
                t
            }
        }
    }
}

/// How a table's entry decides: one that is exact always, one that is a lower limit
/// from beta on, one that is an upper limit up to alpha, and no other. Scores of mates
/// are counted from the root, other scores stay.
pub proof fn entries_decide_so(kind: u8, score: int, alpha: int, beta: int, ply: int)
    requires
        0 <= ply < 128,
    ensures
        kind == 1 ==> cuts(kind, score, alpha, beta),
        kind == 2 ==> (cuts(kind, score, alpha, beta) <==> score >= beta),
        kind == 3 ==> (cuts(kind, score, alpha, beta) <==> score <= alpha),
        kind == 0 || kind > 3 ==> !cuts(kind, score, alpha, beta),
        -28744 < score < 28744 ==> seen_score(score, ply) == score,
        score >= 28744 ==> seen_score(score, ply) == score - ply,
        score <= -28744 ==> seen_score(score, ply) == score + ply,
{
}

/// Where the side to move is not in check, the table does not decide and the value of
/// the position is below beta, quiescence looks at the legal captures, the most valuable
/// victims first: each look is the quiescence of the position after the capture, seen
/// from the other side. The score is the largest of the value and of what was seen. No
/// capture is left out, unless beta is reached, a larger piece takes a smaller one and
/// loses material by that, or the victim and two pawns on top do not lift the value to
/// what is reached already.
pub proof fn quiescence_sees_captures(s: Mind, p: Position, alpha: int, beta: int, ply: int) -> (t:
    Looks)
    requires
        playable(p),
        0 <= ply < 127,
        alpha < beta,
        !p.in_check() || ply >= 80,
        position_value(s.nnue, p) < beta,
        s.entry(p) matches Some(e) ==> !cuts(
            e.flag & 0x03,
            seen_score(e.score as int, ply),
            alpha,
            beta,
        ),
        !quiesced(s, p, alpha, beta, ply).mind.stopped,
    ensures
        ({
            let r = quiesced(s, p, alpha, beta, ply).score;
            let v = position_value(s.nnue, p);
            let n = t.moves.len();
            &&& t.minds.len() == n + 1 && t.limits.len() == n + 1 && t.scores.len() == n
            &&& t.minds[0] == s.counted().reached(ply)
            &&& t.limits[0] == if alpha >= v {
                alpha
            } else {
                v
            }
            &&& r >= v
            &&& t.moves.no_duplicates()
            &&& r == v || exists|j: int| 0 <= j < n && r == #[trigger] t.scores[j]
            &&& forall|j: int|
                0 <= j < n ==> {
                    let c = quiesced(
                        t.minds[j],
                        after(p, #[trigger] t.moves[j]),
                        -beta,
                        -t.limits[j],
                        ply + 1,
                    );
                    &&& legal(p, t.moves[j]) && t.moves[j].captures()
                    &&& t.scores[j] == -c.score
                    &&& r >= t.scores[j]
                    &&& t.minds[j + 1] == c.mind && !c.mind.stopped
                    &&& t.limits[j + 1] == if t.limits[j] >= t.scores[j] {
                        t.limits[j]
                    } else {
                        t.scores[j]
                    }
                }
            &&& forall|mv: Move| #[trigger]
                legal(p, mv) && mv.captures() && r < beta && !t.moves.contains(mv) ==> {
                    let attacker = type_of(p.mailbox@[mv.src()] as int);
                    let target = type_of(p.mailbox@[mv.dst()] as int);
                    let victim = if mv.flag() == 5 {
                        PieceType::Pawn
                    } else {
                        target
                    };
                    let prize = match target {
                        PieceType::Pawn => 100int,
                        PieceType::Knight => 320int,
                        PieceType::Bishop => 330int,
                        PieceType::Rook => 500int,
                        PieceType::Queen => 1000int,
                        _ => 0int,
                    };
                    ||| attacker.num() > victim.num() && victim != PieceType::Queen
                        && !see_at_least(p, mv, 0)
                    ||| !mv.promotes() && (v + prize + 200 < alpha || v + prize + 200 < r)
                }
            &&& s.entry(p) is None ==> forall|a: int, b: int|
                0 <= a <= b < n ==> OrderingInputs::victim(p, #[trigger] t.moves[a]).num() * 10
                    - type_of(p.mailbox@[t.moves[a].src()] as int).num() >= OrderingInputs::victim(
                    p,
                    #[trigger] t.moves[b],
                ).num() * 10 - type_of(p.mailbox@[t.moves[b].src()] as int).num()
        }),
{
    reveal(quiesced);
    reveal(quiesced_moves);
    sound_facts(p);
    let c = s.counted().reached(ply);
    let e = c.entry(p);
    assert(e == s.entry(p));
    let v = position_value(s.nnue, p);
    let tt_move = if e is Some {
        e.unwrap().best_move
    } else {
        Move(0)
    };
    let list = capture_moves(p);
    let scores = quiet_orders(p, list, tt_move);
    let x = Stand {
        stand_pat: v,
        alpha: at_least(alpha, v),
        best: v,
        best_move: Move(0),
        legal: 0,
    };
    let order = |mv: Move| quiet_order(p, tt_move, mv);
    assert forall|k: int| 0 <= k < list.len() implies #[trigger] scores[k] == order(list[k]) by {
    }
    crate::listing::capture_moves_once(p);
    let t = looks_from(c, p, alpha, beta, ply, list, scores, 0, x, order);
    let r = quiesced(s, p, alpha, beta, ply).score;
    assert(t.moves.no_duplicates()) by {
        reveal(within);
    }
    assert(quiesced(s, p, alpha, beta, ply) == quiesced_moves(
        c,
        p,
        alpha,
        beta,
        ply,
        list,
        scores,
        0,
        x,
    ));
    assert forall|j: int| 0 <= j < t.moves.len() implies (#[trigger] t.moves[j]).captures() && r
        >= t.scores[j] by {
        reveal(within);
        assert(r >= t.scores[j]);
        let k = choose|k: int| 0 <= k < list.len() && #[trigger] list[k] == t.moves[j];
        assert(list.contains(list[k]));
        capture_moves_are_the_captures(p, t.moves[j]);
    }
    assert forall|mv: Move| #[trigger]
        legal(p, mv) && mv.captures() && r < beta && !t.moves.contains(mv) implies !worth_a_look(
        p,
        ply,
        mv,
    ) || passed_over(p, ply, mv, v, at_least(alpha, r)) by {
        capture_moves_are_the_captures(p, mv);
        reveal(covers);
        let k = choose|k: int| 0 <= k < list.len() && list[k] == mv;
        assert(seen_or_not(t, p, ply, list[k], x.stand_pat, alpha, beta, r));
    }
    if s.entry(p) is None {
        assert forall|a: int, b: int| 0 <= a <= b < t.moves.len() implies OrderingInputs::victim(
            p,
            #[trigger] t.moves[a],
        ).num() * 10 - type_of(p.mailbox@[t.moves[a].src()] as int).num()
            >= OrderingInputs::victim(p, #[trigger] t.moves[b]).num() * 10 - type_of(
            p.mailbox@[t.moves[b].src()] as int,
        ).num() by {
            reveal(within);
            assert(order(t.moves[a]) >= order(t.moves[b]));
            crate::types::move_parts_roundtrip(Move(0));
        }
    }
    t
}

/// Where one capture is all there is to look at, and the position after it is quiet,
/// quiescence is the better of the value as it is and the value after the capture: a
/// piece that hangs counts as taken.
pub proof fn quiescence_takes_what_hangs(
    s: Mind,
    p: Position,
    alpha: int,
    beta: int,
    ply: int,
    mv: Move,
)
    requires
        playable(p),
        playable(after(p, mv)),
        0 <= ply < 126,
        alpha < beta,
        !p.in_check(),
        !after(p, mv).in_check(),
        s.entry(p) is None,
        s.entry(after(p, mv)) is None,
        legal(p, mv),
        mv.captures(),
        forall|m: Move| #[trigger] legal(p, m) && m.captures() ==> m == mv,
        forall|m: Move| #[trigger] legal(after(p, mv), m) ==> !m.captures(),
        mv.flag() != 5,
        type_of(p.mailbox@[mv.src()] as int).num() <= type_of(p.mailbox@[mv.dst()] as int).num(),
        alpha <= position_value(s.nnue, p) < beta,
        !quiesced(s, p, alpha, beta, ply).mind.stopped,
    ensures
        quiesced(s, p, alpha, beta, ply).score == if position_value(s.nnue, p)
            >= -position_value(s.nnue, after(p, mv)) {
            position_value(s.nnue, p)
        } else {
            -position_value(s.nnue, after(p, mv))
        },
{
    let t = quiescence_sees_captures(s, p, alpha, beta, ply);
    let r = quiesced(s, p, alpha, beta, ply).score;
    let v = position_value(s.nnue, p);
    let q = after(p, mv);
    let w = position_value(s.nnue, q);
    if t.moves.len() == 0 {
        assert(legal(p, mv) && !t.moves.contains(mv));
        assert(false);
    }
    assert(t.moves[0] == mv) by {
        assert(legal(p, t.moves[0]));
    }
    let c = s.counted().reached(ply);
    let f = quiesced(c, q, -beta, -v, ply + 1);
    assert(t.minds[0] == c && t.limits[0] == v);
    assert(c.entry(q) is None);
    if w >= -v {
        assert(f.score == w) by {
            reveal(quiesced);
            reveal(quiesced_moves);
        }
    } else {
        let u = quiescence_sees_captures(c, q, -beta, -v, ply + 1);
        if u.moves.len() > 0 {
            assert(legal(q, u.moves[0]));
        }
    }
    assert(t.scores[0] == -w);
    if r != v {
        let j = choose|j: int| 0 <= j < t.moves.len() && r == #[trigger] t.scores[j];
        assert(legal(p, t.moves[j]));
        assert(t.moves[j] == mv);
    }
}

/// In a check quiescence looks at every legal move, and a side without one is mated:
/// its score counts the plies to the mate. Otherwise the score is the largest of what
/// was seen, unless beta is reached first.
pub proof fn quiescence_sees_evasions(s: Mind, p: Position, alpha: int, beta: int, ply: int) -> (t:
    Looks)
    requires
        playable(p),
        0 <= ply < 80,
        -30000 <= alpha < beta,
        p.in_check(),
        !quiesced(s, p, alpha, beta, ply).mind.stopped,
    ensures
        ({
            let r = quiesced(s, p, alpha, beta, ply).score;
            let n = t.moves.len();
            &&& t.minds.len() == n + 1 && t.limits.len() == n + 1 && t.scores.len() == n
            &&& t.minds[0] == s.counted().reached(ply)
            &&& t.limits[0] == alpha
            &&& t.moves.no_duplicates()
            &&& legal_moves(p).len() == 0 ==> n == 0 && r == ply - 29000
            &&& legal_moves(p).len() > 0 ==> n > 0 && (r == -30000 || exists|j: int|
                0 <= j < n && r == #[trigger] t.scores[j])
            &&& forall|j: int|
                0 <= j < n ==> {
                    let c = quiesced(
                        t.minds[j],
                        after(p, #[trigger] t.moves[j]),
                        -beta,
                        -t.limits[j],
                        ply + 1,
                    );
                    &&& legal(p, t.moves[j])
                    &&& t.scores[j] == -c.score
                    &&& r >= t.scores[j]
                    &&& t.minds[j + 1] == c.mind && !c.mind.stopped
                    &&& t.limits[j + 1] == if t.limits[j] >= t.scores[j] {
                        t.limits[j]
                    } else {
                        t.scores[j]
                    }
                }
            &&& forall|mv: Move| #[trigger]
                legal(p, mv) ==> r >= beta || t.moves.contains(mv)
        }),
{
    reveal(quiesced);
    reveal(quiesced_moves);
    sound_facts(p);
    let c = s.counted().reached(ply);
    let e = c.entry(p);
    let tt_move = if e is Some {
        e.unwrap().best_move
    } else {
        Move(0)
    };
    let list = all_moves(p);
    let scores = quiet_orders(p, list, tt_move);
    let x = Stand {
        stand_pat: -30000,
        alpha: at_least(alpha, -30000),
        best: -30000,
        best_move: Move(0),
        legal: 0,
    };
    let order = |mv: Move| quiet_order(p, tt_move, mv);
    assert forall|k: int| 0 <= k < list.len() implies #[trigger] scores[k] == order(list[k]) by {
    }
    crate::listing::all_moves_once(p);
    let t = looks_from(c, p, alpha, beta, ply, list, scores, 0, x, order);
    let r = quiesced(s, p, alpha, beta, ply).score;
    assert(t.moves.no_duplicates()) by {
        reveal(within);
    }
    assert forall|j: int| 0 <= j < t.moves.len() implies r >= t.scores[j] && legal(
        p,
        #[trigger] t.moves[j],
    ) by {
        reveal(within);
        assert(r >= t.scores[j]);
    }
    assert forall|mv: Move| #[trigger] legal(p, mv) implies (r >= beta && t.moves.len() > 0)
        || t.moves.contains(mv) by {
        all_moves_are_pseudo_legal(p, mv);
        reveal(covers);
        let k = choose|k: int| 0 <= k < list.len() && list[k] == mv;
        assert(seen_or_not(t, p, ply, list[k], x.stand_pat, alpha, beta, r));
    }
    if t.moves.len() > 0 {
        crate::quiet::has_legal_move(p, t.moves[0]);
    } else if legal_moves(p).len() > 0 {
        let mv = legal_moves(p)[0];
        assert(legal_moves(p).contains(mv));
        legal_moves_are_legal(p, mv);
    }
    t
}

} // verus!
