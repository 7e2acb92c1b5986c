//! Who has won a game, and what its records and entries say of that.

use crate::board::{after, Position};
use crate::book::{
    at_point, chosen_move, decoded, encode_decode, poly_hash, total_weight, Book, Candidate,
};
use crate::datagen::{
    asked, book_walk, data_game, ended, judged, opening_of, random_walk, record_of_game, recorded,
    resolved, times_seen, HARD_NODE_LIMIT, Players, Tally,
};
use crate::expbook::ExpEntry;
use crate::game::after_line;
use crate::records::{can_pack, packed, record_board, record_roundtrip, record_score, side_byte};
use crate::rng::Rng;
use crate::rules::{legal, legal_moves, legal_moves_are_legal, playable, sound_facts};
use crate::selfplaybook::{
    best_value, book_game, drawn_by_rule, finished, game_to_end, good_moves, noted, often_played,
    pool_of, reasonable, sampled, seeded_game, stuck_result, trail, value_after, PendingEntry,
};
use crate::types::{move_parts_roundtrip, Color, Move};
use vstd::prelude::*;

verus! {

// ---- The end of a game ----
/// A hash that occurs at two places, or at three, has been seen as often.
proof fn seen_at_places(h: Seq<u64>, x: u64, i: int, j: int, k: int)
    requires
        0 <= i < h.len(),
        h[i] == x,
        0 <= j ==> j < i && h[j] == x,
        0 <= k ==> 0 <= j && k < j && h[k] == x,
    ensures
        times_seen(h, x) >= 1,
        0 <= j ==> times_seen(h, x) >= 2,
        0 <= k ==> times_seen(h, x) >= 3,
    decreases h.len(),
{
    let a = h.drop_last();
    if i < a.len() {
        assert(a[i] == h[i]);
        if 0 <= j {
            assert(a[j] == h[j]);
        }
        if 0 <= k {
            assert(a[k] == h[k]);
        }
        seen_at_places(a, x, i, j, k);
    } else {
        if 0 <= j {
            assert(a[j] == h[j]);
            if 0 <= k {
                assert(a[k] == h[k]);
            }
            seen_at_places(a, x, j, k, -1);
        } else {
            seen_not_negative(a, x);
        }
    }
}

proof fn seen_not_negative(h: Seq<u64>, x: u64)
    ensures
        times_seen(h, x) >= 0,
    decreases h.len(),
{
    if h.len() > 0 {
        seen_not_negative(h.drop_last(), x);
    }
}

/// A side that is in check and has no move has lost; a side that is not in check and
/// has no move has drawn. Results are 2 for a win of White, 1 for a draw and 0 for a
/// win of Black.
pub proof fn the_mated_side_loses(p: Position, h: Seq<u64>)
    requires
        legal_moves(p).len() == 0,
        p.halfmove_clock < 100,
        times_seen(h, p.hash) < 3,
    ensures
        p.in_check() && p.side == Color::White ==> ended(p, h) == Some(0u8) && stuck_result(p) == 0,
        p.in_check() && p.side == Color::Black ==> ended(p, h) == Some(2u8) && stuck_result(p) == 2,
        !p.in_check() ==> ended(p, h) == Some(1u8) && stuck_result(p) == 1,
{
}

/// A position that has occurred three times is drawn, and so is one after a hundred
/// moves without a capture or a pawn move.
pub proof fn repetitions_draw(p: Position, h: Seq<u64>, i: int, j: int, k: int)
    requires
        p.halfmove_clock >= 100 || 0 <= i < j < k < h.len() && h[i] == p.hash && h[j] == p.hash
            && h[k] == p.hash,
    ensures
        ended(p, h) == Some(1u8),
        drawn_by_rule(p, h),
{
    if p.halfmove_clock < 100 {
        seen_at_places(h, p.hash, k, j, i);
    }
}

proof fn seen_once(h: Seq<u64>, x: u64, last: int)
    requires
        forall|i: int| 0 <= i < h.len() && h[i] == x ==> i == last,
    ensures
        0 <= times_seen(h, x) <= 1,
        !(0 <= last < h.len()) ==> times_seen(h, x) == 0,
    decreases h.len(),
{
    if h.len() > 0 {
        let a = h.drop_last();
        assert forall|i: int| 0 <= i < a.len() && a[i] == x implies i == last by {
            assert(h[i] == x);
        }
        seen_once(a, x, last);
        if h.last() == x {
            assert(h[h.len() - 1] == x);
            assert(last == h.len() - 1);
        }
    }
}

/// A game goes on while there is a move, and the position is new.
pub proof fn games_go_on(p: Position, h: Seq<u64>, mv: Move)
    requires
        playable(p),
        legal(p, mv),
        p.halfmove_clock < 100,
        forall|i: int| 0 <= i < h.len() && h[i] == p.hash ==> i == h.len() - 1,
    ensures
        ended(p, h) is None,
        !drawn_by_rule(p, h),
{
    sound_facts(p);
    legal_moves_are_legal(p, mv);
    seen_once(h, p.hash, h.len() - 1);
}

/// Five scores in a row that one side is winning decide the game for that side: for
/// White where White's scores are large and Black's as far below zero, and the other
/// way round. Four do not.
pub proof fn five_scores_decide(c: Seq<Color>, s: Seq<int>, ply: int, white: bool)
    requires
        c.len() == 5,
        s.len() == 5,
        forall|i: int|
            0 <= i < 5 ==> (if white == (#[trigger] c[i] == Color::White) {
                s[i] >= 3000
            } else {
                s[i] <= -3000
            }),
    ensures
        ({
            let t = Tally { white: 0, black: 0, drawn: 0 };
            let a = judged(t, c[0], s[0], ply);
            let b = judged(a.0, c[1], s[1], ply + 1);
            let d = judged(b.0, c[2], s[2], ply + 2);
            let e = judged(d.0, c[3], s[3], ply + 3);
            let f = judged(e.0, c[4], s[4], ply + 4);
            &&& a.1 is None && b.1 is None && d.1 is None && e.1 is None
            &&& f.1 == Some(
                if white {
                    2u8
                } else {
                    0u8
                },
            )
        }),
{
    assert(white == (c[0] == Color::White) ==> s[0] >= 3000);
    assert(white == (c[1] == Color::White) ==> s[1] >= 3000);
    assert(white == (c[2] == Color::White) ==> s[2] >= 3000);
    assert(white == (c[3] == Color::White) ==> s[3] >= 3000);
    assert(white == (c[4] == Color::White) ==> s[4] >= 3000);
}

/// A score below that breaks the row, and one for the other side begins a new one.
pub proof fn rows_are_broken(t: Tally, c: Color, s: int, ply: int)
    requires
        t.white < 1000 && t.black < 1000 && t.drawn < 1000,
    ensures
        -3000 < s < 3000 ==> judged(t, c, s, ply).0.white == 0 && judged(t, c, s, ply).0.black == 0,
        c == Color::White && s >= 3000 ==> judged(t, c, s, ply).0.black == 0,
        c == Color::White && s <= -3000 ==> judged(t, c, s, ply).0.white == 0,
        c == Color::Black && s >= 3000 ==> judged(t, c, s, ply).0.white == 0,
        c == Color::Black && s <= -3000 ==> judged(t, c, s, ply).0.black == 0,
        -3000 < s < 3000 && (s > 10 || s < -10 || ply < 70) ==> judged(t, c, s, ply).1 is None
            && judged(t, c, s, ply).0.drawn == 0,
{
}

/// The tally after some scores from a ply on, as long as none decides.
pub open spec fn tallied(t: Tally, c: Seq<Color>, s: Seq<int>, ply: int, n: int) -> Tally
    decreases n,
{
    if n <= 0 {
        t
    } else {
        judged(tallied(t, c, s, ply, n - 1), c[n - 1], s[n - 1], ply + n - 1).0
    }
}

/// Ten scores in a row within ten points of zero, after seventy plies, make a draw.
/// Nine do not.
pub proof fn ten_quiet_scores_draw(c: Seq<Color>, s: Seq<int>, ply: int, n: int)
    requires
        c.len() == 10,
        s.len() == 10,
        ply >= 70,
        0 <= n < 10,
        forall|i: int| 0 <= i < 10 ==> -10 <= #[trigger] s[i] <= 10,
    ensures
        ({
            let t = Tally { white: 0, black: 0, drawn: 0 };
            let a = tallied(t, c, s, ply, n);
            &&& a.drawn == n && a.white == 0 && a.black == 0
            &&& judged(a, c[n], s[n], ply + n).1 == if n == 9 {
                Some(1u8)
            } else {
                None
            }
        }),
    decreases n,
{
    if n > 0 {
        ten_quiet_scores_draw(c, s, ply, n - 1);
        assert(-10 <= s[n - 1] <= 10);
    }
    assert(-10 <= s[n] <= 10);
}

// ---- Records and entries ----
/// What the records of a game say of its result, by the side that is to move in them,
/// which is White where byte 29 is 0. After a win of White byte 26 is 2 where White is
/// to move and 0 where Black is; after a win of Black it is 0 and 2; after a draw 1.
pub proof fn records_say_who_won(e: Seq<u8>, result: u8)
    requires
        record_of_game(e, result),
        result <= 2,
    ensures
        e.len() == 32,
        e[29] == 0 || e[29] == 1,
        result == 2 && e[29] == 0 ==> e[26] == 2,
        result == 2 && e[29] == 1 ==> e[26] == 0,
        result == 0 && e[29] == 0 ==> e[26] == 0,
        result == 0 && e[29] == 1 ==> e[26] == 2,
        result == 1 ==> e[26] == 1,
{
    let (p, score) = choose|p: Position, score: int| #[trigger]
        crate::datagen::fits_record(p, score) && e == packed(p, score).update(
            26,
            crate::datagen::seen_result(p.side.num(), result as int) as u8,
        );
    side_byte(p, score);
}

/// Writing the result into records changes byte 26 alone: a record says 2 where the
/// side to move has won, 0 where it has lost and 1 for a draw.
pub proof fn results_are_written_so(e: Seq<Seq<u8>>, result: u8, i: int, k: int)
    requires
        0 <= i < e.len(),
        e[i].len() == 32,
        e[i][29] <= 1,
        result <= 2,
        0 <= k < 32,
    ensures
        resolved(e, result).len() == e.len(),
        k != 26 ==> resolved(e, result)[i][k] == e[i][k],
        result == 1 ==> resolved(e, result)[i][26] == 1,
        result != 1 ==> resolved(e, result)[i][26] == if (result == 2) == (e[i][29] == 0) {
            2u8
        } else {
            0u8
        },
{
}

/// The side that is mated, and is to move in a record, has the result 0 in it, and the
/// side that mates has the result 2.
pub proof fn mates_are_written_so(p: Position, h: Seq<u64>, q: Position, score: int)
    requires
        legal_moves(p).len() == 0,
        p.in_check(),
        p.halfmove_clock < 100,
        times_seen(h, p.hash) < 3,
    ensures
        ended(p, h) is Some,
        resolved(seq![packed(q, score)], ended(p, h)->0)[0][26] == if q.side == p.side {
            0u8
        } else {
            2u8
        },
{
    the_mated_side_loses(p, h);
    side_byte(q, score);
    let e = seq![packed(q, score)];
    results_are_written_so(e, ended(p, h)->0, 0, 26);
}

/// A position that is recorded stands in its record with the board, the side to move
/// and the score that the search gave it, as the side to move sees it.
pub proof fn positions_are_recorded(
    k: Players,
    p: Position,
    hashes: Seq<u64>,
    t: Tally,
    ply: int,
    soft: int,
    kept: Seq<Seq<u8>>,
)
    requires
        playable(p),
        0 <= ply < 512,
        ended(p, hashes.push(p.hash)) is None,
        ({
            let c = asked(k, p, hashes.push(p.hash), 100, soft, HARD_NODE_LIMIT).1;
            &&& c.best_move.0 != 0
            &&& judged(t, p.side, c.score, ply).1 is None
            &&& recorded(p, c.best_move, c.score, ply)
            &&& can_pack(p)
        }),
    ensures
        ({
            let a = asked(k, p, hashes.push(p.hash), 100, soft, HARD_NODE_LIMIT);
            exists|r: Seq<u8>|
                data_game(k, p, hashes, t, ply, soft, kept) == data_game(
                    a.0,
                    after(p, a.1.best_move),
                    hashes.push(p.hash),
                    judged(t, p.side, a.1.score, ply).0,
                    ply + 1,
                    soft,
                    #[trigger] kept.push(r),
                ) && record_board(r) == p.mailbox@ && record_score(r) == a.1.score && r[29]
                    == p.side.num()
        }),
{
    sound_facts(p);
    let a = asked(k, p, hashes.push(p.hash), 100, soft, HARD_NODE_LIMIT);
    let r = packed(p, a.1.score);
    record_roundtrip(p, a.1.score);
    side_byte(p, a.1.score);
    let next = kept.push(r);
    assert(data_game(k, p, hashes, t, ply, soft, kept) == data_game(
        a.0,
        after(p, a.1.best_move),
        hashes.push(p.hash),
        judged(t, p.side, a.1.score, ply).0,
        ply + 1,
        soft,
        kept.push(r),
    ));
}

/// Which positions are recorded: from the ninth ply on, where the side to move is not
/// in check and the score is below a hundred pawns either way, and where the best move
/// neither takes nor promotes nor gives check.
pub proof fn quiet_positions_are_recorded(p: Position, best: Move, score: int, ply: int)
    ensures
        recorded(p, best, score, ply) ==> ply >= 8 && -10000 < score < 10000 && !p.in_check()
            && !best.captures() && !best.promotes() && !after(p, best).in_check(),
        ply >= 8 && -10000 < score < 10000 && !p.in_check() && !best.captures() && !best.promotes()
            && !after(p, best).in_check() ==> recorded(p, best, score, ply),
{
    move_parts_roundtrip(best);
}

/// The entry of a move that was played: it is one of the position, stands for the move,
/// and counts as won exactly where the side that made it has won, and as lost where it
/// has lost.
pub proof fn entries_say_who_won(p: Position, mv: Move, score: int, depth: int, result: u8)
    requires
        playable(p),
        legal(p, mv),
        result <= 2,
        -32000 <= score <= 32000,
        0 <= depth <= 32767,
    ensures
        ({
            let e = finished(noted(p, mv, score, depth), result);
            &&& e.key == poly_hash(p)
            &&& decoded(p, e.packed_move as int) == Some(mv)
            &&& e.score == score && e.clrsrc_score == score && e.depth == depth && e.count == 1
            &&& (e.wdl_w == 1) == (result == if p.side == Color::White {
                2u8
            } else {
                0u8
            })
            &&& (e.wdl_l == 1) == (result == if p.side == Color::White {
                0u8
            } else {
                2u8
            })
            &&& e.wdl_w <= 1 && e.wdl_l <= 1
        }),
{
    encode_decode(p, mv);
    move_parts_roundtrip(mv);
}

// ---- Openings ----
/// Each move of the line is one of the legal moves of the position that the moves
/// before it lead to.
pub open spec fn listed_line(p: Position, l: Seq<Move>) -> bool
    decreases l.len(),
{
    l.len() == 0 || (legal_moves(p).contains(l[0]) && listed_line(
        after(p, l[0]),
        l.drop_first(),
    ))
}

/// Random moves are legal moves, and as many as are asked for. They are given up only
/// in a position without a move.
pub proof fn random_moves_are_legal(p: Position, r: Rng, n: int) -> (l: Seq<Move>)
    requires
        n >= 0,
    ensures
        listed_line(p, l),
        match random_walk(p, r, n).0 {
            Some(q) => l.len() == n && q == after_line(p, l),
            None => l.len() < n && legal_moves(after_line(p, l)).len() == 0,
        },
    decreases n,
{
    let m = legal_moves(p);
    if n == 0 || m.len() == 0 {
        Seq::empty()
    } else {
        let mv = m[crate::rng::drawn(r) as int % m.len() as int];
        let rest = random_moves_are_legal(after(p, mv), crate::rng::stepped(r), n - 1);
        let l = seq![mv] + rest;
        assert(l.drop_first() =~= rest);
        l
    }
}

/// Without a book an opening is eight legal moves drawn by chance.
pub proof fn openings_without_a_book(p: Position, r: Rng) -> (l: Seq<Move>)
    ensures
        opening_of(None, p, r).0 matches Some(q) ==> listed_line(p, l) && l.len() == 8 && q
            == after_line(p, l),
{
    random_moves_are_legal(p, r, 8)
}

/// The moves of a book are counted one by one, and are at most forty; with fewer than four
/// of them the opening goes on by chance up to eight, and with more it ends there.
pub proof fn books_open_games(b: Book, p: Position, r: Rng)
    ensures
        ({
            let w = book_walk(b, p, r, 0);
            &&& 0 <= w.2 <= 40
            &&& w.2 >= 4 ==> opening_of(Some(b), p, r).0 == Some(w.0)
            &&& w.2 < 4 ==> opening_of(Some(b), p, r) == random_walk(w.0, w.1, 8 - w.2)
            &&& chosen_move(p, b.offers(p), crate::rng::drawn(r) as int, false) is None ==> w.2 == 0
                && w.0 == p
            &&& chosen_move(p, b.offers(p), crate::rng::drawn(r) as int, false) is Some ==> w.2 >= 1
        }),
{
    walk_counts(b, p, r, 0);
}

proof fn walk_counts(b: Book, p: Position, r: Rng, plies: int)
    requires
        0 <= plies < 40,
    ensures
        plies <= book_walk(b, p, r, plies).2 <= 40,
        chosen_move(p, b.offers(p), crate::rng::drawn(r) as int, false) is None ==> book_walk(
            b,
            p,
            r,
            plies,
        ).2 == plies && book_walk(b, p, r, plies).0 == p,
        chosen_move(p, b.offers(p), crate::rng::drawn(r) as int, false) is Some ==> book_walk(
            b,
            p,
            r,
            plies,
        ).2 > plies,
    decreases 40 - plies,
{
    if let Some(m) = chosen_move(p, b.offers(p), crate::rng::drawn(r) as int, false) {
        if plies + 1 < 40 {
            walk_counts(b, after(p, m), crate::rng::stepped(r), plies + 1);
        }
    }
}

// ---- Exploring ----
proof fn value_is_best(p: Position, l: Seq<Move>, n: int)
    requires
        0 < n <= l.len(),
    ensures
        forall|i: int| 0 <= i < n ==> value_after(p, #[trigger] l[i]) <= best_value(p, l, n),
        exists|i: int| 0 <= i < n && value_after(p, #[trigger] l[i]) == best_value(p, l, n),
    decreases n,
{
    if n > 1 {
        value_is_best(p, l, n - 1);
        let i = choose|i: int|
            0 <= i < n - 1 && value_after(p, #[trigger] l[i]) == best_value(p, l, n - 1);
        assert(value_after(p, l[i]) == best_value(p, l, n - 1));
    }
    assert(value_after(p, l[n - 1]) <= best_value(p, l, n));
    if best_value(p, l, n) == value_after(p, l[n - 1]) {
        assert(value_after(p, l[n - 1]) == best_value(p, l, n));
    }
}

proof fn good_moves_hold(p: Position, l: Seq<Move>, limit: int)
    ensures
        forall|m: Move| #[trigger]
            good_moves(p, l, limit).contains(m) == (l.contains(m) && value_after(p, m) >= limit),
    decreases l.len(),
{
    if l.len() > 0 {
        let a = l.drop_last();
        good_moves_hold(p, a, limit);
        assert forall|m: Move| #[trigger]
            good_moves(p, l, limit).contains(m) == (l.contains(m) && value_after(p, m) >= limit) by {
            let c = good_moves(p, a, limit);
            assert(c.contains(m) == (a.contains(m) && value_after(p, m) >= limit));
            assert(l =~= a + seq![l.last()]);
            crate::rules::concat_contains(a, seq![l.last()], m);
            crate::rules::single_contains(l.last(), m);
            assert(c.push(l.last()) =~= c + seq![l.last()]);
            crate::rules::concat_contains(c, seq![l.last()], m);
        }
    }
}

/// An exploring move is one of those offered, and its static value for the side that
/// makes it is within the margin of every other.
pub proof fn exploring_moves_are_reasonable(p: Position, l: Seq<Move>, r: Rng, margin: int)
    requires
        l.len() > 0,
        margin >= 0,
    ensures
        l.contains(reasonable(p, l, r, margin)),
        forall|i: int|
            0 <= i < l.len() ==> -crate::eval::evaluation(after(p, reasonable(p, l, r, margin)))
                + margin >= -crate::eval::evaluation(after(p, #[trigger] l[i])),
{
    let n = l.len() as int;
    value_is_best(p, l, n);
    let b = best_value(p, l, n);
    good_moves_hold(p, l, b - margin);
    let g = good_moves(p, l, b - margin);
    let i = choose|i: int| 0 <= i < n && value_after(p, #[trigger] l[i]) == b;
    assert(l.contains(l[i]));
    assert(g.contains(l[i]));
    let k = crate::rng::drawn(r) as int % g.len() as int;
    assert(g.contains(g[k]));
    assert forall|i: int| 0 <= i < l.len() implies value_after(p, g[k]) + margin >= value_after(
        p,
        #[trigger] l[i],
    ) by {
        assert(value_after(p, l[i]) <= b);
    }
    assert forall|i: int| 0 <= i < l.len() implies -crate::eval::evaluation(after(p, g[k])) + margin
        >= -crate::eval::evaluation(after(p, #[trigger] l[i])) by {
        assert(value_after(p, l[i]) <= b);
    }
}

/// Exploring leads over legal moves, each within 120 points of the best one by its static
/// value for the side that makes it. It goes on for as many plies as are asked for, unless
/// the game is over or drawn before.
pub proof fn trails_are_reasonable(p: Position, r: Rng, h: Seq<u64>, moves: int, plies: int) -> (l:
    Seq<Move>)
    requires
        moves <= plies,
    ensures
        ({
            let t = trail(p, r, h, moves, plies);
            &&& l.len() == t.moves - moves && t.moves <= plies
            &&& t.pos == after_line(p, l)
            &&& reasonable_line(p, l)
            &&& t.hashes.len() == h.len() + l.len()
            &&& t.over is None ==> t.moves == plies || drawn_by_rule(t.pos, t.hashes)
            &&& t.over matches Some(x) ==> legal_moves(t.pos).len() == 0 && (!t.pos.in_check() ==> x
                == 1) && (t.pos.in_check() ==> x == if t.pos.side == Color::White {
                0u8
            } else {
                2u8
            })
        }),
    decreases plies - moves,
{
    let m = legal_moves(p);
    if moves >= plies || drawn_by_rule(p, h) || m.len() == 0 {
        Seq::empty()
    } else {
        let mv = reasonable(p, m, r, 120);
        let q = after(p, mv);
        exploring_moves_are_reasonable(p, m, r, 120);
        let rest = trails_are_reasonable(
            q,
            crate::rng::stepped(r),
            h.push(q.hash),
            moves + 1,
            plies,
        );
        let l = seq![mv] + rest;
        assert(l.drop_first() =~= rest);
        l
    }
}

/// Each move of the line is a legal one, and its static value for the side that makes it
/// is at most 120 below that of any other legal move.
pub open spec fn reasonable_line(p: Position, l: Seq<Move>) -> bool
    decreases l.len(),
{
    l.len() == 0 || {
        &&& legal_moves(p).contains(l[0])
        &&& forall|i: int|
            0 <= i < legal_moves(p).len() ==> -crate::eval::evaluation(after(p, l[0])) + 120
                >= -crate::eval::evaluation(after(p, #[trigger] legal_moves(p)[i]))
        &&& reasonable_line(after(p, l[0]), l.drop_first())
    }
}

/// A game for a book notes each move of its first eighteen plies: the one that its book
/// gives, or else the best of a search, with the score and the depth of the search. It
/// notes no later one.
pub proof fn openings_are_noted(
    k: Players,
    p: Position,
    h: Seq<u64>,
    r: Rng,
    t: Tally,
    ply: int,
    soft: int,
    notes: Seq<PendingEntry>,
)
    requires
        0 <= ply < 512,
        !drawn_by_rule(p, h),
        legal_moves(p).len() > 0,
        ({
            let c = asked(k, p, h, 100, soft, HARD_NODE_LIMIT).1;
            &&& c.best_move.0 != 0
            &&& judged(t, p.side, c.score, ply).1 is None
        }),
    ensures
        ({
            let a = asked(k, p, h, 100, soft, HARD_NODE_LIMIT);
            let q = after(p, a.1.best_move);
            let g = book_game(k, None, p, h, r, t, ply, soft, notes);
            let next = |n: Seq<PendingEntry>|
                book_game(
                    a.0,
                    None,
                    q,
                    h.push(q.hash),
                    r,
                    judged(t, p.side, a.1.score, ply).0,
                    ply + 1,
                    soft,
                    n,
                );
            &&& ply < 18 ==> g == next(
                notes.push(noted(p, a.1.best_move, a.1.score, a.1.completed)),
            )
            &&& ply >= 18 ==> g == next(notes)
        }),
{
}

/// The entry of a game from a seed is that of its first move: one of the candidates where
/// there are any. Its score is that of the other side's search of the position after it,
/// turned round, and it counts as won or lost by the side that made it.
pub proof fn seeded_games_tell_of_their_move(
    k: Players,
    p: Position,
    candidates: Seq<Move>,
    r: Rng,
    plies: int,
    soft: int,
    i: int,
) -> (x: (Move, u8))
    requires
        candidates.len() > 0,
        plies >= 0,
        playable(p),
        forall|j: int| 0 <= j < candidates.len() ==> legal(p, #[trigger] candidates[j]),
        0 <= i < candidates.len(),
        crate::rng::drawn(r) as int % candidates.len() as int == i,
    ensures
        seeded_game(k, p, candidates, r, plies, soft).2 matches Some(e) ==> {
            let mv = candidates[i];
            let q = after(p, mv);
            let c = asked(k, q, seq![p.hash, q.hash], 100, 10_000, HARD_NODE_LIMIT).1;
            &&& x.0 == mv && e.key == poly_hash(p)
            &&& decoded(p, e.packed_move as int) == Some(mv)
            &&& -32000 <= c.score <= 32000 ==> e.score == -c.score
            &&& (e.wdl_w == 1) == (x.1 == if p.side == Color::White {
                2u8
            } else {
                0u8
            })
            &&& (e.wdl_l == 1) == (x.1 == if p.side == Color::White {
                0u8
            } else {
                2u8
            })
        },
{
    let mv = candidates[i];
    let q = after(p, mv);
    let h = seq![p.hash];
    assert(h.push(q.hash) =~= seq![p.hash, q.hash]);
    encode_decode(p, mv);
    move_parts_roundtrip(mv);
    let c = asked(k, q, h.push(q.hash), 100, 10_000, HARD_NODE_LIMIT);
    let t = trail(q, crate::rng::stepped(r), h.push(q.hash), 0, plies);
    if t.over is Some {
        (mv, t.over->0)
    } else {
        let g = asked(c.0, t.pos, t.hashes, 100, 10_000, HARD_NODE_LIMIT);
        let none = Tally { white: 0, black: 0, drawn: 0 };
        (mv, game_to_end(g.0, t.pos, t.hashes, none, 1 + t.moves, soft).1)
    }
}

/// Each player searches when it is their turn, and learns from their own searches only.
pub proof fn players_keep_apart(
    k: Players,
    p: Position,
    h: Seq<u64>,
    depth: int,
    soft: int,
    limit: u64,
)
    ensures
        ({
            let a = asked(k, p, h, depth, soft, limit);
            &&& p.side == Color::White ==> a.0.black == k.black && a.0.white == a.1.mind
            &&& p.side == Color::Black ==> a.0.white == k.white && a.0.black == a.1.mind
            &&& p.side == Color::White ==> a == asked(
                Players { black: a.0.black, white: k.white },
                p,
                h,
                depth,
                soft,
                limit,
            )
        }),
{
}

/// A game for training that ends by the rules has the result of its last position; one
/// that is too long is a draw.
pub proof fn data_games_end_so(
    k: Players,
    p: Position,
    h: Seq<u64>,
    t: Tally,
    ply: int,
    soft: int,
    kept: Seq<Seq<u8>>,
)
    ensures
        ply >= 512 ==> data_game(k, p, h, t, ply, soft, kept).2 == 1,
        ply < 512 && legal_moves(p).len() == 0 && p.halfmove_clock < 100 && times_seen(
            h.push(p.hash),
            p.hash,
        ) < 3 ==> data_game(k, p, h, t, ply, soft, kept).1 == kept && data_game(
            k,
            p,
            h,
            t,
            ply,
            soft,
            kept,
        ).2 == if !p.in_check() {
            1u8
        } else if p.side == Color::White {
            0u8
        } else {
            2u8
        },
        ply < 512 && p.halfmove_clock >= 100 ==> data_game(k, p, h, t, ply, soft, kept).2 == 1,
        legal_moves(p).len() == 0 && !drawn_by_rule(p, h) && ply < 512 ==> game_to_end(
            k,
            p,
            h,
            t,
            ply,
            soft,
        ).1 == if !p.in_check() {
            1u8
        } else if p.side == Color::White {
            0u8
        } else {
            2u8
        },
{
}

// ---- Drawing from a book ----
proof fn often_holds(s: Seq<ExpEntry>, least: int)
    ensures
        forall|i: int|
            0 <= i < often_played(s, least).len() ==> exists|j: int|
                0 <= j < s.len() && s[j].count >= least && (#[trigger] often_played(s, least)[i])
                    == (Candidate { raw: (#[trigger] s[j]).packed_move, weight: s[j].count }),
        (exists|j: int| 0 <= j < s.len() && (#[trigger] s[j]).count >= least) ==> often_played(
            s,
            least,
        ).len() > 0,
    decreases s.len(),
{
    if s.len() > 0 {
        let a = s.drop_last();
        often_holds(a, least);
        let c = often_played(a, least);
        let d = often_played(s, least);
        assert forall|i: int| 0 <= i < d.len() implies exists|j: int|
            0 <= j < s.len() && s[j].count >= least && (#[trigger] d[i]) == (Candidate {
                raw: (#[trigger] s[j]).packed_move,
                weight: s[j].count,
            }) by {
            if i < c.len() {
                let j = choose|j: int|
                    0 <= j < a.len() && a[j].count >= least && c[i] == (Candidate {
                        raw: (#[trigger] a[j]).packed_move,
                        weight: a[j].count,
                    });
                assert(d[i] == c[i]);
                assert(s[j] == a[j]);
            } else {
                assert(d[i] == (Candidate { raw: s.last().packed_move, weight: s.last().count }));
                assert(s[s.len() - 1] == s.last());
            }
        }
        if exists|j: int| 0 <= j < s.len() && (#[trigger] s[j]).count >= least {
            let j = choose|j: int| 0 <= j < s.len() && (#[trigger] s[j]).count >= least;
            if j < a.len() {
                assert(a[j].count >= least);
            }
        }
    }
}

proof fn point_in(l: Seq<Candidate>, point: int, n: int)
    requires
        0 <= n,
        l.len() > 0,
    ensures
        exists|i: int| 0 <= i < l.len() && #[trigger] l[i] == at_point(l, point, n),
    decreases l.len() - n,
{
    if n >= l.len() {
        assert(l[0] == at_point(l, point, n));
    } else if point < l[n].weight {
        assert(l[n] == at_point(l, point, n));
    } else {
        point_in(l, point - l[n].weight, n + 1);
    }
}

/// A move that is drawn from a book is that of an entry that was played often enough, as
/// long as there is one.
pub proof fn drawn_moves_were_played_often(p: Position, s: Seq<ExpEntry>, r: Rng, least: int, k: int)
    requires
        0 <= k < s.len(),
        s[k].count >= least,
        least >= 1,
    ensures
        sampled(p, s, r, least).1 == crate::rng::stepped(r),
        exists|j: int|
            0 <= j < s.len() && s[j].count >= least && sampled(p, s, r, least).0 == decoded(
                p,
                (#[trigger] s[j]).packed_move as int,
            ),
{
    often_holds(s, least);
    assert(s[k].count >= least);
    let l = pool_of(s, least);
    assert(l == often_played(s, least) && l.len() > 0);
    weights_add(l, least);
    let point = crate::rng::drawn(r) as int % total_weight(l);
    point_in(l, point, 0);
    let i = choose|i: int| 0 <= i < l.len() && #[trigger] l[i] == at_point(l, point, 0);
    let j = choose|j: int|
        0 <= j < s.len() && s[j].count >= least && l[i] == (Candidate {
            raw: (#[trigger] s[j]).packed_move,
            weight: s[j].count,
        });
    assert(sampled(p, s, r, least).0 == decoded(p, s[j].packed_move as int));
}

proof fn weights_add(l: Seq<Candidate>, least: int)
    requires
        least >= 1,
        forall|i: int| 0 <= i < l.len() ==> (#[trigger] l[i]).weight >= least,
    ensures
        total_weight(l) >= l.len(),
    decreases l.len(),
{
    if l.len() > 0 {
        weights_add(l.drop_last(), least);
        assert(l[l.len() - 1].weight >= least);
    }
}

} // verus!
