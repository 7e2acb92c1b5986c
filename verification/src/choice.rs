//! What the books play and learn: which entries can be picked, how the random number
//! picks one, what is merged and what a search teaches.

use crate::board::Position;
use crate::book::{
    at_point, chosen_move, decoded, encode_decode, heaviest, poly_code, poly_hash, promo_number,
    total_weight, Book, Candidate,
};
use crate::bytes::{be_num_bound, byte_limits};
use crate::embedded::{EmbeddedEngine, EmbeddedLimits};
use crate::expbook::{
    belongs, best_count, best_entry, best_offer, best_score, chosen, chosen_or_all, cutoff,
    gathered, merged, mixed, no_worse, not_losing, picked, pool, ExpEntry,
};
use crate::rules::{legal, playable};
use crate::session::lesson;
use crate::types::{file, move_parts_roundtrip, rank, Move, PieceType};
use vstd::prelude::*;

verus! {

/// A choice holds exactly the entries of a list that satisfy a condition.
proof fn chosen_holds(s: Seq<ExpEntry>, f: spec_fn(ExpEntry) -> bool)
    ensures
        forall|e: ExpEntry| #[trigger] chosen(s, f).contains(e) == (s.contains(e) && f(e)),
        chosen(s, f).len() <= s.len(),
    decreases s.len(),
{
    if s.len() > 0 {
        let a = s.drop_last();
        chosen_holds(a, f);
        assert forall|e: ExpEntry| #[trigger] chosen(s, f).contains(e) == (s.contains(e) && f(e)) by {
            let c = chosen(a, f);
            assert(c.contains(e) == (a.contains(e) && f(e)));
            if s.contains(e) {
                let i = choose|i: int| 0 <= i < s.len() && s[i] == e;
                if i < a.len() {
                    assert(a[i] == e);
                }
            }
            if a.contains(e) {
                let i = choose|i: int| 0 <= i < a.len() && a[i] == e;
                assert(s[i] == e);
            }
            assert(s[s.len() - 1] == s.last());
            if f(s.last()) {
                let d = c.push(s.last());
                if c.contains(e) {
                    let i = choose|i: int| 0 <= i < c.len() && c[i] == e;
                    assert(d[i] == e);
                }
                assert(d[c.len() as int] == s.last());
                if d.contains(e) {
                    let i = choose|i: int| 0 <= i < d.len() && d[i] == e;
                    if i < c.len() {
                        assert(c[i] == e);
                    }
                }
            }
        }
    }
}

proof fn best_score_is_largest(s: Seq<ExpEntry>, i: int)
    requires
        0 <= i < s.len(),
    ensures
        s[i].score <= best_score(s),
        s[i].count <= best_count(s),
        exists|j: int| 0 <= j < s.len() && #[trigger] s[j].score == best_score(s),
        exists|j: int| 0 <= j < s.len() && #[trigger] s[j].count == best_count(s),
    decreases s.len(),
{
    if s.len() > 1 {
        let a = s.drop_last();
        if i < a.len() {
            best_score_is_largest(a, i);
            assert(a[i] == s[i]);
        } else {
            best_score_is_largest(a, 0);
        }
        let j = choose|j: int| 0 <= j < a.len() && #[trigger] a[j].score == best_score(a);
        let k = choose|k: int| 0 <= k < a.len() && #[trigger] a[k].count == best_count(a);
        assert(s[j] == a[j] && s[k] == a[k]);
        assert(s[s.len() - 1] == s.last());
    } else {
        assert(s[0].score == best_score(s) && s[0].count == best_count(s));
    }
}

proof fn best_entry_is_best(s: Seq<ExpEntry>)
    requires
        s.len() > 0,
    ensures
        s.contains(best_entry(s)),
        forall|i: int| 0 <= i < s.len() ==> no_worse(best_entry(s), #[trigger] s[i]),
    decreases s.len(),
{
    if s.len() > 1 {
        let a = s.drop_last();
        best_entry_is_best(a);
        let k = choose|k: int| 0 <= k < a.len() && a[k] == best_entry(a);
        assert(s[k] == best_entry(a));
        assert(s[s.len() - 1] == s.last());
        assert forall|i: int| 0 <= i < s.len() implies no_worse(best_entry(s), #[trigger] s[i]) by {
            if i < a.len() {
                assert(no_worse(best_entry(a), a[i]));
            }
        }
    } else {
        assert(s[0] == best_entry(s));
    }
}

/// The score of an entry is within a margin of every score of a list.
pub open spec fn within(s: Seq<ExpEntry>, e: ExpEntry, margin: int) -> bool {
    forall|i: int| 0 <= i < s.len() ==> e.score + margin >= (#[trigger] s[i]).score
}

proof fn pool_holds(s: Seq<ExpEntry>, variety: u8)
    requires
        s.len() > 0,
    ensures
        pool(s, variety).len() > 0,
        ({
            let m = if variety == 1 {
                15int
            } else if variety == 2 {
                30
            } else {
                0
            };
            let sound = exists|j: int|
                0 <= j < s.len() && within(s, #[trigger] s[j], m) && not_losing(s[j]);
            forall|e: ExpEntry| #[trigger]
                pool(s, variety).contains(e) == (s.contains(e) && within(s, e, m) && (not_losing(e)
                    || !sound))
        }),
{
    let m = if variety == 1 {
        15int
    } else if variety == 2 {
        30
    } else {
        0
    };
    let f = |e: ExpEntry| e.score >= cutoff(s, variety);
    let g = |e: ExpEntry| not_losing(e);
    let near = chosen(s, f);
    chosen_holds(s, f);
    chosen_holds(near, g);
    best_score_is_largest(s, 0);
    let b = choose|j: int| 0 <= j < s.len() && #[trigger] s[j].score == best_score(s);
    assert forall|e: ExpEntry| #[trigger] within(s, e, m) == f(e) by {
        if f(e) {
            assert forall|i: int| 0 <= i < s.len() implies e.score + m >= (#[trigger] s[i]).score by {
                best_score_is_largest(s, i);
            }
        }
        if within(s, e, m) {
            assert(e.score + m >= s[b].score);
        }
    }
    assert(s.contains(s[b]));
    assert(f(s[b]));
    assert(near.contains(s[b]));
    let sound = exists|j: int|
        0 <= j < s.len() && within(s, #[trigger] s[j], m) && not_losing(s[j]);
    if chosen(near, g).len() > 0 {
        let e = chosen(near, g)[0];
        assert(chosen(near, g).contains(e));
        assert(near.contains(e) && g(e));
        assert(s.contains(e) && f(e));
        let j = choose|j: int| 0 <= j < s.len() && s[j] == e;
        assert(within(s, s[j], m) && not_losing(s[j]));
    }
    if sound {
        let j = choose|j: int|
            0 <= j < s.len() && within(s, #[trigger] s[j], m) && not_losing(s[j]);
        assert(s.contains(s[j]));
        assert(near.contains(s[j]));
        assert(g(s[j]));
        assert(chosen(near, g).contains(s[j]));
    }
    assert forall|e: ExpEntry| #[trigger]
        pool(s, variety).contains(e) == (s.contains(e) && within(s, e, m) && (not_losing(e)
            || !sound)) by {
        assert(near.contains(e) == (s.contains(e) && f(e)));
        assert(chosen(near, g).contains(e) == (near.contains(e) && g(e)));
        assert(within(s, e, m) == f(e));
    }
}

/// What is picked from a list of entries: an entry of the list whose score is within
/// 15 points of the best with variety 1, within 30 with variety 2, and the best score
/// itself otherwise. It has lost as often as it has won in six games or more only if
/// every entry within the tolerance has.
pub proof fn picked_is_good(s: Seq<ExpEntry>, variety: u8, rng: u64)
    requires
        s.len() > 0,
    ensures
        ({
            let e = picked(s, variety, rng);
            let m = if variety == 1 {
                15int
            } else if variety == 2 {
                30
            } else {
                0
            };
            &&& s.contains(e)
            &&& forall|i: int| 0 <= i < s.len() ==> e.score + m >= (#[trigger] s[i]).score
            &&& e.wdl_l >= e.wdl_w && e.wdl_l + e.wdl_w >= 6 ==> forall|j: int|
                0 <= j < s.len() && within(s, #[trigger] s[j], m) ==> s[j].wdl_l >= s[j].wdl_w
                    && s[j].wdl_l + s[j].wdl_w >= 6
        }),
{
    let e = picked(s, variety, rng);
    pool_holds(s, variety);
    let p = pool(s, variety);
    if variety == 0 {
        best_entry_is_best(p);
    } else {
        often_holds(s, variety);
        let o = chosen_or_all(p, |e: ExpEntry| e.count >= best_count(p) / 20);
        let k = mixed(rng) as int % o.len() as int;
        assert(o.contains(o[k]));
    }
    assert(p.contains(e));
}

proof fn often_holds(s: Seq<ExpEntry>, variety: u8)
    requires
        s.len() > 0,
    ensures
        ({
            let p = pool(s, variety);
            let o = chosen_or_all(p, |e: ExpEntry| e.count >= best_count(p) / 20);
            &&& p.len() > 0
            &&& o.len() > 0
            &&& forall|e: ExpEntry| #[trigger]
                o.contains(e) == (p.contains(e) && forall|i: int|
                    0 <= i < p.len() ==> e.count >= (#[trigger] p[i]).count / 20)
        }),
{
    pool_holds(s, variety);
    let p = pool(s, variety);
    let f = |e: ExpEntry| e.count >= best_count(p) / 20;
    chosen_holds(p, f);
    best_score_is_largest(p, 0);
    let b = choose|j: int| 0 <= j < p.len() && #[trigger] p[j].count == best_count(p);
    assert(p.contains(p[b]) && f(p[b]));
    assert(chosen(p, f).contains(p[b]));
    let o = chosen_or_all(p, f);
    assert forall|e: ExpEntry| #[trigger]
        o.contains(e) == (p.contains(e) && forall|i: int|
            0 <= i < p.len() ==> e.count >= (#[trigger] p[i]).count / 20) by {
        if f(e) {
            assert forall|i: int| 0 <= i < p.len() implies e.count >= (#[trigger] p[i]).count / 20 by {
                best_score_is_largest(p, i);
            }
        }
        if forall|i: int| 0 <= i < p.len() ==> e.count >= (#[trigger] p[i]).count / 20 {
            assert(e.count >= p[b].count / 20);
        }
    }
}

/// Without variety the random number plays no part: of the best scores that do not
/// mostly lose, or of all best scores where each mostly loses, it is the one that was
/// searched deepest, and of these the one that was played most.
pub proof fn without_variety_the_deepest(s: Seq<ExpEntry>, rng: u64, j: int)
    requires
        0 <= j < s.len(),
        forall|i: int| 0 <= i < s.len() ==> s[j].score >= (#[trigger] s[i]).score,
    ensures
        ({
            let e = picked(s, 0, rng);
            let loses = e.wdl_l >= e.wdl_w && e.wdl_l + e.wdl_w >= 6;
            &&& s[j].wdl_l < s[j].wdl_w || s[j].wdl_l + s[j].wdl_w < 6 || loses ==> e.depth
                >= s[j].depth && (e.depth == s[j].depth ==> e.count >= s[j].count)
            &&& forall|other: u64| #[trigger] picked(s, 0, other) == e
        }),
{
    let e = picked(s, 0, rng);
    pool_holds(s, 0);
    let p = pool(s, 0);
    best_entry_is_best(p);
    picked_is_good(s, 0, rng);
    assert(s.contains(s[j]));
    assert(within(s, s[j], 0));
    let loses = e.wdl_l >= e.wdl_w && e.wdl_l + e.wdl_w >= 6;
    if s[j].wdl_l < s[j].wdl_w || s[j].wdl_l + s[j].wdl_w < 6 || loses {
        if loses {
            assert(p.contains(e));
            assert(!not_losing(e));
        }
        assert(p.contains(s[j]));
        let k = choose|k: int| 0 <= k < p.len() && p[k] == s[j];
        assert(no_worse(e, p[k]));
    }
}

/// With variety the random number picks evenly among all entries that may be played:
/// one list of them serves every random number, which points into it by its remainder.
/// An entry may be played if it is within the tolerance, does not mostly lose, and was
/// played a twentieth as often as any other of these.
pub proof fn variety_picks_evenly(s: Seq<ExpEntry>, variety: u8)
    requires
        s.len() > 0,
        variety != 0,
    ensures
        exists|o: Seq<ExpEntry>|
            #![trigger o.len()]
            o.len() > 0 && (forall|rng: u64|
                picked(s, variety, rng) == o[#[trigger] mixed(rng) as int % o.len() as int]) && (
            forall|j: int|
                0 <= j < s.len() && within(
                    s,
                    #[trigger] s[j],
                    if variety == 1 {
                        15
                    } else if variety == 2 {
                        30
                    } else {
                        0
                    },
                ) && (s[j].wdl_l
                    < s[j].wdl_w || s[j].wdl_l + s[j].wdl_w < 6) && (forall|i: int|
                    0 <= i < s.len() ==> 20 * s[j].count >= (#[trigger] s[i]).count) ==> o.contains(
                    s[j],
                )),
{
    pool_holds(s, variety);
    often_holds(s, variety);
    let p = pool(s, variety);
    let o = chosen_or_all(p, |e: ExpEntry| e.count >= best_count(p) / 20);
    assert forall|rng: u64|
        picked(s, variety, rng) == o[#[trigger] mixed(rng) as int % o.len() as int] by {}
    assert forall|j: int|
        0 <= j < s.len() && within(
                    s,
                    #[trigger] s[j],
                    if variety == 1 {
                        15
                    } else if variety == 2 {
                        30
                    } else {
                        0
                    },
                ) && (s[j].wdl_l < s[j].wdl_w
            || s[j].wdl_l + s[j].wdl_w < 6) && (forall|i: int|
            0 <= i < s.len() ==> 20 * s[j].count >= (#[trigger] s[i]).count) implies o.contains(
        s[j],
    ) by {
        assert(s.contains(s[j]));
        assert(not_losing(s[j]));
        assert(p.contains(s[j]));
        assert forall|i: int| 0 <= i < p.len() implies s[j].count >= (#[trigger] p[i]).count / 20 by {
            assert(p.contains(p[i]));
            let k = choose|k: int| 0 <= k < s.len() && s[k] == p[i];
            assert(20 * s[j].count >= s[k].count);
        }
    }
    assert(o.len() > 0);
}

// ---- What is merged and learnt ----
/// How often the entries for a key and a move were won, or lost.
pub open spec fn games_sum(s: Seq<ExpEntry>, key: u64, mv: u16, n: int, won: bool) -> int
    decreases n,
{
    if n <= 0 {
        0
    } else {
        games_sum(s, key, mv, n - 1, won) + if !(s[n - 1].key == key && s[n - 1].packed_move == mv) {
            0
        } else if won {
            s[n - 1].wdl_w as int
        } else {
            s[n - 1].wdl_l as int
        }
    }
}

/// Wins are added to wins and losses to losses, as far as the largest count, and no
/// flag or source is lost.
pub proof fn merging_adds_games(s: Seq<ExpEntry>, n: int, key: u64, mv: u16, first: bool, i: int)
    requires
        0 <= i < n <= s.len(),
        belongs(s[i], key, mv),
    ensures
        ({
            let e = merged(gathered(s, key, mv, n), first);
            let w = games_sum(s, key, mv, n, true);
            let l = games_sum(s, key, mv, n, false);
            &&& e.wdl_w == if w < 65535 {
                w
            } else {
                65535
            }
            &&& e.wdl_l == if l < 65535 {
                l
            } else {
                65535
            }
            &&& e.source & s[i].source == s[i].source
            &&& e.flags & s[i].flags == s[i].flags
        }),
{
    games_so_far(s, n, key, mv);
    nothing_is_lost(s, n, key, mv, i);
}

proof fn games_so_far(s: Seq<ExpEntry>, n: int, key: u64, mv: u16)
    requires
        0 <= n <= s.len(),
    ensures
        ({
            let e = gathered(s, key, mv, n).e;
            let w = games_sum(s, key, mv, n, true);
            let l = games_sum(s, key, mv, n, false);
            &&& e.wdl_w == if w < 65535 {
                w
            } else {
                65535
            }
            &&& e.wdl_l == if l < 65535 {
                l
            } else {
                65535
            }
        }),
        games_sum(s, key, mv, n, true) >= 0,
        games_sum(s, key, mv, n, false) >= 0,
    decreases n,
{
    if n > 0 {
        games_so_far(s, n - 1, key, mv);
    }
}

proof fn bits_stay(a: u8, b: u8, c: u8)
    by (bit_vector)
    ensures
        (a | b) & b == b,
        a & c == c ==> (a | b) & c == c,
{
}

proof fn nothing_is_lost(s: Seq<ExpEntry>, n: int, key: u64, mv: u16, i: int)
    requires
        0 <= i < n <= s.len(),
        belongs(s[i], key, mv),
    ensures
        gathered(s, key, mv, n).e.source & s[i].source == s[i].source,
        gathered(s, key, mv, n).e.flags & s[i].flags == s[i].flags,
    decreases n,
{
    let g = gathered(s, key, mv, n - 1).e;
    bits_stay(g.source, s[n - 1].source, s[i].source);
    bits_stay(g.flags, s[n - 1].flags, s[i].flags);
    if i < n - 1 {
        nothing_is_lost(s, n - 1, key, mv, i);
    }
}

/// The score of a merged entry is that of one of its sources: the engine's own where it
/// goes first and is set, and otherwise that of the first source, then of the second,
/// then the engine's own; 0 where none is set. Its depth is that of the deepest.
pub proof fn merged_score_is_ranked(s: Seq<ExpEntry>, n: int, key: u64, mv: u16, first: bool)
    ensures
        ({
            let g = gathered(s, key, mv, n);
            let e = merged(g, first);
            let none = -32768i16;
            let a = e.jug_score;
            let b = e.sf_score;
            let c = e.clrsrc_score;
            &&& first && c != none ==> e.score == c
            &&& (!first || c == none) && a != none ==> e.score == a
            &&& (!first || c == none) && a == none && b != none ==> e.score == b
            &&& a == none && b == none && c != none ==> e.score == c
            &&& a == none && b == none && c == none ==> e.score == 0
            &&& e.key == g.e.key && e.packed_move == g.e.packed_move && e.count == g.e.count
        }),
{
}

/// What a search teaches is what a book then plays: an entry that was learnt for a
/// position has its key, and played from alone gives the move that was found, with the
/// score that was found.
pub proof fn learnt_is_played(p: Position, best: Move, score: int, depth: int, v: u8, rng: u64)
    requires
        playable(p),
        legal(p, best),
        -32767 <= score <= 32767,
        0 <= depth <= 32767,
    ensures
        ({
            let e = lesson(p, best, score, depth);
            &&& e.key == poly_hash(p)
            &&& best_offer(p, seq![e], v, rng) == Some(best)
            &&& e.score == score
            &&& e.clrsrc_score == score
            &&& e.depth == depth
            &&& e.count == 1
            &&& e.wdl_w == 0 && e.wdl_l == 0
        }),
{
    let e = lesson(p, best, score, depth);
    encode_decode(p, best);
    move_parts_roundtrip(best);
    picked_is_good(seq![e], v, rng);
    let i = choose|i: int| 0 <= i < seq![e].len() && seq![e][i] == picked(seq![e], v, rng);
    assert(picked(seq![e], v, rng) == e);
}

// ---- Books by weight ----
proof fn heaviest_is_heaviest(l: Seq<Candidate>)
    requires
        l.len() > 0,
    ensures
        l.contains(heaviest(l)),
        forall|i: int| 0 <= i < l.len() ==> heaviest(l).weight >= (#[trigger] l[i]).weight,
    decreases l.len(),
{
    if l.len() > 1 {
        let a = l.drop_last();
        heaviest_is_heaviest(a);
        let k = choose|k: int| 0 <= k < a.len() && a[k] == heaviest(a);
        assert(l[k] == heaviest(a));
        assert(l[l.len() - 1] == l.last());
        assert forall|i: int| 0 <= i < l.len() implies heaviest(l).weight >= (#[trigger] l[i]).weight by {
            if i < a.len() {
                assert(a[i] == l[i]);
            }
        }
    } else {
        assert(l[0] == heaviest(l));
    }
}

/// Where the best move is wanted, it is one with the largest weight.
pub proof fn best_book_move_is_heaviest(p: Position, l: Seq<Candidate>, rng: int)
    requires
        l.len() > 0,
    ensures
        exists|k: int|
            0 <= k < l.len() && chosen_move(p, l, rng, true) == decoded(
                p,
                (#[trigger] l[k]).raw as int,
            ) && forall|i: int| 0 <= i < l.len() ==> l[k].weight >= (#[trigger] l[i]).weight,
{
    heaviest_is_heaviest(l);
    let k = choose|k: int| 0 <= k < l.len() && l[k] == heaviest(l);
    assert(chosen_move(p, l, rng, true) == decoded(p, l[k].raw as int));
}

proof fn weight_grows(l: Seq<Candidate>, k: int)
    requires
        0 <= k < l.len(),
    ensures
        total_weight(l.take(k + 1)) == total_weight(l.take(k)) + l[k].weight,
{
    assert(l.take(k + 1).drop_last() =~= l.take(k));
}

proof fn point_falls(l: Seq<Candidate>, n: int, i: int, point: int)
    requires
        0 <= n <= i < l.len(),
        total_weight(l.take(i)) <= point < total_weight(l.take(i + 1)),
    ensures
        at_point(l, point - total_weight(l.take(n)), n) == l[i],
    decreases i - n,
{
    weight_grows(l, n);
    weight_grows(l, i);
    if n < i {
        weights_ascend(l, n + 1, i);
        point_falls(l, n + 1, i, point);
    }
}

proof fn weights_ascend(l: Seq<Candidate>, a: int, b: int)
    requires
        0 <= a <= b <= l.len(),
    ensures
        total_weight(l.take(a)) <= total_weight(l.take(b)),
    decreases b - a,
{
    if a < b {
        weights_ascend(l, a, b - 1);
        weight_grows(l, b - 1);
    }
}

/// Otherwise a move is drawn by its weight: of the remainders that the random number
/// can leave, each candidate has as many as its weight.
pub proof fn book_moves_are_drawn_by_weight(p: Position, l: Seq<Candidate>, rng: int, i: int)
    requires
        0 <= i < l.len(),
        rng >= 0,
        total_weight(l) > 0,
        total_weight(l.take(i)) <= rng % total_weight(l) < total_weight(l.take(i)) + l[i].weight,
    ensures
        chosen_move(p, l, rng, false) == decoded(p, l[i].raw as int),
{
    weight_grows(l, i);
    assert(l.take(0) =~= Seq::empty());
    point_falls(l, 0, i, rng % total_weight(l));
}

/// A book offers for a position only entries of its hash, and only those with a weight.
pub proof fn offers_have_weight(b: Book, hash: int, k: int, i: int)
    requires
        b.wf(),
        0 <= k,
        0 <= i < b.candidates(hash, k).len(),
    ensures
        b.candidates(hash, k)[i].weight > 0,
        exists|n: int|
            k <= n < b.num_entries && #[trigger] b.key(n) == hash && b.candidates(hash, k)[i].raw
                == b.raw(n) as u16,
    decreases b.num_entries - k,
{
    let rest = b.candidates(hash, k + 1);
    be_num_bound(b.data@.subrange(16 * k + 10, 16 * k + 12));
    byte_limits();
    if b.weight(k) > 0 {
        if i == 0 {
            assert(b.key(k) == hash);
        } else {
            offers_have_weight(b, hash, k + 1, i - 1);
            assert(b.candidates(hash, k)[i] == rest[i - 1]);
        }
    } else {
        assert(b.candidates(hash, k) =~= rest);
        offers_have_weight(b, hash, k + 1, i);
    }
}

/// The digits of a number to the base eight.
proof fn eights(a: int, b: int, c: int, d: int, e: int)
    requires
        0 <= a < 8,
        0 <= b < 8,
        0 <= c < 8,
        0 <= d < 8,
        0 <= e,
    ensures
        ({
            let n = a + 8 * b + 64 * c + 512 * d + 4096 * e;
            n % 8 == a && n / 8 % 8 == b && n / 64 % 8 == c && n / 512 % 8 == d && n / 4096 == e
        }),
{
    let n = a + 8 * b + 64 * c + 512 * d + 4096 * e;
    let x = b + 8 * c + 64 * d + 512 * e;
    let y = c + 8 * d + 64 * e;
    let z = d + 8 * e;
    assert(n / 8 == x);
    assert(x % 8 == b);
    assert(n / 64 == y);
    assert(y % 8 == c);
    assert(n / 512 == z);
    assert(z % 8 == d);
}

/// How a move is written in a book: three bits each for the file and the rank that it
/// goes to and comes from, and then 1 to 4 for a promotion to a knight, a bishop, a
/// rook or a queen. A castling king goes to its rook.
pub proof fn book_moves_are_written_so(mv: Move)
    ensures
        ({
            let c = poly_code(mv);
            &&& c / 8 % 8 == rank(mv.dst())
            &&& c / 64 % 8 == file(mv.src())
            &&& c / 512 % 8 == rank(mv.src())
            &&& !mv.promotes() ==> c / 4096 == 0
            &&& mv.promotes() ==> match mv.promo_type() {
                PieceType::Knight => c / 4096 == 1,
                PieceType::Bishop => c / 4096 == 2,
                PieceType::Rook => c / 4096 == 3,
                _ => c / 4096 == 4,
            }
            &&& mv.flag() != 2 && mv.flag() != 3 ==> c % 8 == file(mv.dst())
            &&& mv.flag() == 2 ==> c % 8 == 7
            &&& mv.flag() == 3 ==> c % 8 == 0
        }),
{
    move_parts_roundtrip(mv);
    eights(
        if mv.flag() == 2 {
            7
        } else if mv.flag() == 3 {
            0
        } else {
            file(mv.dst())
        },
        rank(mv.dst()),
        file(mv.src()),
        rank(mv.src()),
        promo_number(mv),
    );
}

/// Which book gives the move: the experience of games goes before the other book, and
/// neither is asked while pondering, in an infinite search or in one to a depth, nor when
/// it is switched off.
pub proof fn experience_goes_first(e: EmbeddedEngine, p: Position, limits: EmbeddedLimits)
    ensures
        limits.ponder || limits.tc.infinite || limits.depth > 0 || limits.tc.depth > 0
            ==> e.known_move(p, limits) is None,
        (e.exp is None || !e.play_from_exp) && (e.book is None || !e.own_book) ==> e.known_move(
            p,
            limits,
        ) is None,
        ({
            let n = EmbeddedEngine { own_book: false, ..e };
            let m = EmbeddedEngine { play_from_exp: false, ..e };
            &&& n.known_move(p, limits) is Some ==> e.known_move(p, limits) == n.known_move(
                p,
                limits,
            )
            &&& n.known_move(p, limits) is None ==> e.known_move(p, limits) == m.known_move(
                p,
                limits,
            )
        }),
{
}

} // verus!
