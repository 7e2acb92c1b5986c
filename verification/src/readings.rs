//! What counts, labels and networks tell: how their numbers belong together.

use crate::attacks::side_attacks_from;
use crate::board::{after, Position};
use crate::eval::evaluation;
use crate::model::position_value;
use crate::movegen::all_moves;
use crate::nnue::{
    activation, bucket, centipawns, dot, feature, flips, l1_dot, l1_value, l2_dot, lane_sum,
    network_value, piece_sum, threat_feature, used_bucket, white_output, wrap16, Nnue, NnueParams,
};
use crate::num::tdiv;
use crate::perft::{leaves, leaves_below, share, shares, total_share};
use crate::records::{record_occupancy, record_score};
use crate::rescore::{
    find_from, first_number, is_blank, label_of, labelled, line_says, mate_value, record_at,
    rescoring_keeps_the_rest, staying, stays, tally, EngineLine,
};
use crate::rules::{keep_safe, legal_moves, safe};
use crate::search::bucket_of_count;
use crate::tablebase::piece_count;
use crate::types::{on_board, Color, Move};
use vstd::prelude::*;

verus! {

// ---- Leaves ----
proof fn one_leaf_each(p: Position, l: Seq<Move>)
    ensures
        leaves_below(p, l, 1) == keep_safe(p, l).len(),
    decreases l.len(),
{
    if l.len() > 0 {
        one_leaf_each(p, l.drop_last());
        assert(leaves(after(p, l.last()), 0) == 1);
        assert((1 - 1) as nat == 0nat);
    }
}

proof fn shares_add_to(p: Position, l: Seq<Move>, depth: u32)
    requires
        depth >= 1,
    ensures
        total_share(shares(p, l, depth)) == leaves_below(p, l, depth as nat),
    decreases l.len(),
{
    if l.len() > 0 {
        let a = l.drop_last();
        shares_add_to(p, a, depth);
        if safe(p, l.last()) {
            let s = shares(p, a, depth);
            let x = (l.last(), share(p, l.last(), depth));
            assert(s.push(x).drop_last() =~= s);
            assert(leaves(after(p, l.last()), 0) == 1);
        }
    }
}

/// There is one leaf at depth 0, and at depth 1 one for each legal move. The shares of
/// the moves add up to the leaves.
pub proof fn leaves_are_counted(p: Position, depth: u32)
    requires
        depth >= 1,
    ensures
        leaves(p, 0) == 1,
        leaves(p, 1) == legal_moves(p).len(),
        total_share(shares(p, all_moves(p), depth)) == leaves(p, depth as nat),
{
    one_leaf_each(p, all_moves(p));
    shares_add_to(p, all_moves(p), depth);
}

/// A move is divided out exactly where it is legal, with the leaves after it.
pub proof fn legal_moves_are_divided(p: Position, l: Seq<Move>, depth: u32)
    ensures
        shares(p, l, depth).len() == keep_safe(p, l).len(),
        forall|i: int|
            0 <= i < keep_safe(p, l).len() ==> #[trigger] shares(p, l, depth)[i] == (
                keep_safe(p, l)[i],
                if depth <= 1 {
                    1nat
                } else {
                    leaves(after(p, keep_safe(p, l)[i]), (depth - 1) as nat)
                },
            ),
    decreases l.len(),
{
    if l.len() > 0 {
        legal_moves_are_divided(p, l.drop_last(), depth);
    }
}

// ---- Labels ----
/// A record of a position that the tables know gets the score of their result, as the
/// side to move sees it: a win, nothing for a draw, or a loss. Every other record stays.
pub proof fn labels_score_results(r: Seq<u8>, limit: int, win: int, i: int)
    requires
        r.len() == 32,
        0 < win <= 32767,
        0 <= i < 32,
        i != 24 && i != 25,
    ensures
        ({
            let known = !is_blank(r) && crate::bitboard::squares(record_occupancy(r)).len() <= limit;
            let w = labelled(r, label_of(r, limit, Some(1)), win);
            let l = labelled(r, label_of(r, limit, Some(-1)), win);
            let d = labelled(r, label_of(r, limit, Some(0)), win);
            &&& known ==> record_score(w) == win && record_score(l) == -win && record_score(d) == 0
            &&& known ==> w[i] == r[i] && l[i] == r[i] && d[i] == r[i]
            &&& !known ==> w == r && l == r && d == r
            &&& labelled(r, label_of(r, limit, None), win) == r
        }),
{
    rescoring_keeps_the_rest(r, win);
    rescoring_keeps_the_rest(r, -win);
    rescoring_keeps_the_rest(r, 0);
}

/// Each record is counted under one label.
pub proof fn every_record_is_counted(d: Seq<u8>, answers: Seq<Option<int>>, limit: int)
    requires
        answers.len() < 0x1_0000_0000,
    ensures
        tally(d, answers, limit).total() == answers.len(),
    decreases answers.len(),
{
    if answers.len() > 0 {
        every_record_is_counted(d, answers.drop_last(), limit);
    }
}

/// A record that is not blank is kept either as one of the smaller or as one of the
/// larger positions, and never as both: the two parts of a file hold it whole.
pub proof fn files_are_split(d: Seq<u8>, n: int, most: int)
    requires
        0 <= n,
        32 * n <= d.len(),
        forall|i: int| 0 <= i < n ==> !is_blank(#[trigger] record_at(d, i)),
    ensures
        staying(d, n, most, true).len() + staying(d, n, most, false).len() == 32 * n,
        forall|i: int|
            0 <= i < n ==> (stays(#[trigger] record_at(d, i), most, false) <==> crate::bitboard::squares(
                record_occupancy(record_at(d, i)),
            ).len() <= most),
        forall|i: int|
            0 <= i < n ==> stays(#[trigger] record_at(d, i), most, true) != stays(
                record_at(d, i),
                most,
                false,
            ),
    decreases n,
{
    if n > 0 {
        files_are_split(d, n - 1, most);
        assert(!is_blank(record_at(d, n - 1)));
    }
}

/// The mate of another engine counts by its distance: a nearer one is better for the side
/// that mates, and worse for the one that is mated.
pub proof fn nearer_mates_count_more(m: int, n: int)
    requires
        0 < m < n < 1000,
    ensures
        mate_value(m) > mate_value(n) > 28000,
        mate_value(-m) < mate_value(-n) < -28000,
        mate_value(m) == -mate_value(-m),
{
}

/// A text is found at its first place.
pub proof fn texts_are_found_first(t: Seq<char>, pat: Seq<char>, i: int, k: int)
    requires
        0 <= i,
        i <= k,
    ensures
        match find_from(t, pat, i) {
            Some(j) => i <= j && j + pat.len() <= t.len() && t.subrange(j, j + pat.len()) == pat && (k
                < j ==> t.subrange(k, k + pat.len()) != pat),
            None => k + pat.len() <= t.len() ==> t.subrange(k, k + pat.len()) != pat,
        },
    decreases t.len() + 1 - i,
{
    if i + pat.len() <= t.len() && t.subrange(i, i + pat.len()) != pat {
        if k > i {
            texts_are_found_first(t, pat, i + 1, k);
        } else {
            texts_are_found_first(t, pat, i + 1, i + 1);
        }
    }
}

/// A line that says the best move ends a search. Otherwise a score in centipawns is taken
/// as it stands, and a mate by its distance; a line with neither says nothing.
pub proof fn lines_tell_their_score(t: Seq<char>, v: i32)
    ensures
        t.len() >= 8 && t.take(8) == "bestmove"@ ==> line_says(t) == EngineLine::Best,
        ({
            let open = !(t.len() >= 8 && t.take(8) == "bestmove"@);
            let cp = find_from(t, "score cp "@, 0);
            let mate = find_from(t, "score mate "@, 0);
            &&& open && cp is Some && first_number(t.skip(cp->0 + 9)) == Some(v) ==> line_says(t)
                == EngineLine::Score(v)
            &&& open && cp is None && mate is Some && first_number(t.skip(mate->0 + 11)) == Some(v)
                && 0 < v < 1000 ==> line_says(t) == EngineLine::Score((30000 - v) as i32)
            &&& open && cp is None && mate is Some && first_number(t.skip(mate->0 + 11)) == Some(v)
                && -1000 < v < 0 ==> line_says(t) == EngineLine::Score((-30000 - v) as i32)
            &&& open && cp is None && mate is None ==> line_says(t) == EngineLine::Other
        }),
{
}

// ---- Networks ----
/// The activation rises from nothing at zero to the square of 255, and stays there.
pub proof fn activations_are_clipped(x: int, y: int)
    requires
        x <= y,
    ensures
        0 <= activation(x) <= activation(y) <= 65025,
        x <= 0 ==> activation(x) == 0,
        y >= 255 ==> activation(y) == 65025,
        0 <= x <= 255 ==> activation(x) == x * x,
{
    let a = crate::num::clamped(x, 0, 255);
    let b = crate::num::clamped(y, 0, 255);
    assert(0 <= a * a <= b * b <= 65025) by (nonlinear_arith)
        requires
            0 <= a <= b <= 255,
    ;
    assert(0 * 0 == 0 && 255 * 255 == 65025) by (nonlinear_arith);
}

/// Turning the signs of sum and bias turns the sign of the value, and 104040 of the sum,
/// which is 408 of the bias, count ten centipawns.
pub proof fn centipawns_are_scaled(sum: int, bias: int, k: int)
    requires
        k >= 0,
    ensures
        centipawns(-sum, -bias) == -centipawns(sum, bias),
        centipawns(104040 * k, 0) == 10 * k,
        centipawns(0, 408 * k) == 10 * k,
{
    assert(tdiv(-sum, 255) == -tdiv(sum, 255));
    let a = tdiv(sum, 255) + bias;
    assert(tdiv(-a * 400, 16320) == -tdiv(a * 400, 16320));
    assert(104040 * k / 255 == 408 * k);
    assert(408 * k * 400 / 16320 == 10 * k);
}

/// What one lane of the first half adds to an output: its activation times its weight. The
/// weights of the second half follow those of the first.
pub proof fn lanes_add_to_the_output(
    a: Seq<i16>,
    b: Seq<i16>,
    w: Seq<i16>,
    start: int,
    h: int,
    j: int,
    x: i16,
    k: int,
)
    requires
        0 <= j < h,
        a.len() >= h,
        b.len() >= h,
        0 <= k <= h,
    ensures
        dot(a.update(j, x), b, w, start, h, k) - dot(a, b, w, start, h, k) == if j < k {
            activation(x as int) * w[start + j] - activation(a[j] as int) * w[start + j]
        } else {
            0
        },
        dot(a, b.update(j, x), w, start, h, k) - dot(a, b, w, start, h, k) == if j < k {
            activation(x as int) * w[start + h + j] - activation(b[j] as int) * w[start + h + j]
        } else {
            0
        },
    decreases k,
{
    if k > 0 {
        lanes_add_to_the_output(a, b, w, start, h, j, x, k - 1);
    }
}

/// The same for the input of a neuron of the second layer: each lane has a weight for each
/// of the sixteen neurons, side by side.
pub proof fn lanes_add_to_the_neurons(
    a: Seq<i16>,
    b: Seq<i16>,
    w: Seq<i16>,
    h: int,
    neuron: int,
    j: int,
    x: i16,
    k: int,
)
    requires
        0 <= j < h,
        a.len() >= h,
        b.len() >= h,
        0 <= k <= h,
    ensures
        l1_dot(a.update(j, x), b, w, h, neuron, k) - l1_dot(a, b, w, h, neuron, k) == if j < k {
            activation(x as int) * w[16 * j + neuron] - activation(a[j] as int) * w[16 * j + neuron]
        } else {
            0
        },
        l1_dot(a, b.update(j, x), w, h, neuron, k) - l1_dot(a, b, w, h, neuron, k) == if j < k {
            activation(x as int) * w[16 * (h + j) + neuron] - activation(b[j] as int) * w[16 * (h + j)
                + neuron]
        } else {
            0
        },
    decreases k,
{
    if k > 0 {
        lanes_add_to_the_neurons(a, b, w, h, neuron, j, x, k - 1);
        assert((k - 1) * 16 + neuron == 16 * (k - 1) + neuron);
        assert((h + k - 1) * 16 + neuron == 16 * (h + (k - 1)) + neuron);
    }
}

/// A weight of the last layer counts with the activation of its neuron, and with nothing
/// else.
pub proof fn neurons_add_to_the_output(
    a: Seq<i16>,
    b: Seq<i16>,
    l1w: Seq<i16>,
    l1b: Seq<i16>,
    w: Seq<i16>,
    h: int,
    j: int,
    x: i16,
    k: int,
)
    requires
        0 <= j < w.len(),
        0 <= k <= w.len(),
    ensures
        l2_dot(a, b, l1w, l1b, w.update(j, x), h, k) - l2_dot(a, b, l1w, l1b, w, h, k) == if j < k {
            activation(l1_value(a, b, l1w, l1b, h, j)) * x - activation(
                l1_value(a, b, l1w, l1b, h, j),
            ) * w[j]
        } else {
            0
        },
    decreases k,
{
    if k > 0 {
        neurons_add_to_the_output(a, b, l1w, l1b, w, h, j, x, k - 1);
    }
}

proof fn dot_of_block(
    a: Seq<i16>,
    b: Seq<i16>,
    v: Seq<i16>,
    w: Seq<i16>,
    start: int,
    h: int,
    k: int,
)
    requires
        forall|i: int| 0 <= i < 2 * h ==> #[trigger] v[i] == w[start + i],
        0 <= k <= h,
    ensures
        dot(a, b, v, 0, h, k) == dot(a, b, w, start, h, k),
    decreases k,
{
    if k > 0 {
        dot_of_block(a, b, v, w, start, h, k - 1);
        assert(v[0 + k - 1] == w[start + (k - 1)]);
        assert(v[0 + h + k - 1] == w[start + (h + k - 1)]);
    }
}

/// A network with several outputs gives what one with the weights and the bias of the
/// output in use gives.
pub proof fn outputs_are_networks(
    n: NnueParams,
    m: NnueParams,
    a: Seq<i16>,
    b: Seq<i16>,
    k: int,
)
    requires
        0 <= k < 8,
        m.hidden_size == n.hidden_size,
        n.arch is SingleLayerOutBucket,
        m.arch is SingleLayer,
        n.arch->output_biases@[k] == m.arch->output_bias,
        forall|i: int|
            0 <= i < 2 * n.hidden_size ==> #[trigger] m.arch->SingleLayer_output_weights@[i]
                == n.arch->SingleLayerOutBucket_output_weights@[k * (2 * n.hidden_size) + i],
    ensures
        white_output(n, a, b, k) == white_output(m, a, b, 0),
{
    let h = n.hidden_size as int;
    dot_of_block(
        a,
        b,
        m.arch->SingleLayer_output_weights@,
        n.arch->SingleLayerOutBucket_output_weights@,
        k * (2 * h),
        h,
        h,
    );
}

proof fn pieces_of_block(
    n: NnueParams,
    m: NnueParams,
    b: Seq<u8>,
    c: Color,
    offset: int,
    j: int,
    k: int,
)
    requires
        m.hidden_size == n.hidden_size,
        0 <= k <= 64,
        0 <= j < n.hidden_size,
        forall|f: int| 0 <= f < 768 ==> #[trigger] m.weight(f, j) == n.weight(offset + f, j),
    ensures
        piece_sum(m, b, c, 0, 0, j, k) == piece_sum(n, b, c, offset, 0, j, k),
    decreases k,
{
    if k > 0 {
        pieces_of_block(n, m, b, c, offset, j, k - 1);
        let code = b[k - 1] as int;
        if code < 12 {
            let f = feature(crate::types::color_of(code), code % 6, k - 1, c);
            crate::types::mirror_is_involution(k - 1);
            assert(0 <= f < 768);
            assert(m.weight(f, j) == n.weight(offset + f, j));
        }
    }
}

/// A network with king buckets gives, for a king on the left half, what one without buckets
/// gives that has the weights of the king's bucket.
pub proof fn buckets_are_networks(n: NnueParams, m: NnueParams, p: Position, c: Color, j: int)
    requires
        m.hidden_size == n.hidden_size,
        0 <= j < n.hidden_size,
        n.num_buckets > 1,
        m.num_buckets == 1,
        !n.has_threats,
        n.features_per_bucket == 768,
        p.king_square(c) % 8 < 4,
        m.feature_biases@[j] == n.feature_biases@[j],
        forall|f: int|
            0 <= f < 768 ==> #[trigger] m.weight(f, j) == n.weight(
                768 * bucket(p.king_square(c)) + f,
                j,
            ),
    ensures
        lane_sum(n, p, c, j) == lane_sum(m, p, c, j),
{
    pieces_of_block(n, m, p.mailbox@, c, 768 * bucket(p.king_square(c)), j, 64);
}

/// A neuron of the second layer is worth one for each 16320 of its input, and for each 64
/// of its bias.
pub proof fn neurons_are_scaled(
    a: Seq<i16>,
    b: Seq<i16>,
    w: Seq<i16>,
    biases: Seq<i16>,
    h: int,
    neuron: int,
    k: int,
)
    requires
        k >= 0,
        l1_dot(a, b, w, h, neuron, h) == 16320 * k,
    ensures
        biases[neuron] == 0 ==> l1_value(a, b, w, biases, h, neuron) == k,
        k == 0 && biases[neuron] >= 0 ==> l1_value(a, b, w, biases, h, neuron) == biases[neuron] as int
            / 64,
{
    assert(16320 * k / 255 == 64 * k);
    assert(64 * k / 64 == k);
}

proof fn dot_of_one_half(
    a: Seq<i16>,
    b: Seq<i16>,
    d: Seq<i16>,
    w: Seq<i16>,
    start: int,
    h: int,
    k: int,
)
    requires
        forall|i: int| start + h <= i < start + 2 * h ==> #[trigger] w[i] == 0,
        0 <= k <= h,
    ensures
        dot(a, b, w, start, h, k) == dot(a, d, w, start, h, k),
    decreases k,
{
    if k > 0 {
        dot_of_one_half(a, b, d, w, start, h, k - 1);
        assert(w[start + h + k - 1] == 0);
        assert(activation(b[k - 1] as int) * 0 == 0) by (nonlinear_arith);
        assert(activation(d[k - 1] as int) * 0 == 0) by (nonlinear_arith);
    }
}

/// The first half of the output weights belongs to White's view of the board, whoever is
/// to move: where the others are nothing, the value depends on White's view alone.
pub proof fn the_first_half_is_whites(n: NnueParams, p: Position, d: Seq<i16>)
    requires
        n.arch is SingleLayer,
        forall|i: int|
            n.hidden_size <= i < 2 * n.hidden_size
                ==> #[trigger] n.arch->SingleLayer_output_weights@[i] == 0,
    ensures
        p.side == Color::White ==> network_value(n, p, 0) == white_output(
            n,
            crate::nnue::lanes(n, p, Color::White),
            d,
            0,
        ),
        p.side == Color::Black ==> network_value(n, p, 0) == -white_output(
            n,
            crate::nnue::lanes(n, p, Color::White),
            d,
            0,
        ),
{
    let h = n.hidden_size as int;
    dot_of_one_half(
        crate::nnue::lanes(n, p, Color::White),
        crate::nnue::lanes(n, p, Color::Black),
        d,
        n.arch->SingleLayer_output_weights@,
        0,
        h,
        h,
    );
}

/// There is an output for each four pieces: the kings alone have the first, all pieces
/// the last.
pub proof fn outputs_follow_the_pieces(n: int)
    requires
        2 <= n <= 32,
    ensures
        0 <= used_bucket(bucket_of_count(n)) <= 7,
        4 * bucket_of_count(n) + 2 <= n < 4 * bucket_of_count(n) + 6,
        used_bucket(bucket_of_count(2)) == 0,
        used_bucket(bucket_of_count(32)) == 7,
{
}

/// The place of a king is one of four, the same for both wings; a king on the right half
/// turns the files over, one on the left does not.
pub proof fn wings_are_alike(s: int, t: int)
    requires
        on_board(s),
        on_board(t),
        s / 8 == t / 8,
        s % 8 + t % 8 == 7,
    ensures
        bucket(s) == bucket(t),
        0 <= bucket(s) < 4,
        flips(s) != flips(t),
        flips(s) == (s % 8 >= 4),
        (bucket(s) >= 2) == (s / 8 >= 2),
        (bucket(s) % 2 == 1) == (2 <= s % 8 <= 5),
{
}

/// Different pieces on different squares have different features, and so have different
/// threats. A side's own pieces come first.
pub proof fn features_are_apart(
    c: Color,
    t: int,
    s: int,
    d: Color,
    u: int,
    r: int,
    perspective: Color,
)
    requires
        on_board(s),
        on_board(r),
        0 <= t < 6,
        0 <= u < 6,
    ensures
        0 <= feature(c, t, s, perspective) < 768,
        768 <= threat_feature(c, s, perspective) < 896,
        (feature(c, t, s, perspective) < 384) == (c == perspective),
        (threat_feature(c, s, perspective) < 832) == (c == perspective),
        feature(c, t, s, perspective) == feature(d, u, r, perspective) ==> c == d && t == u && s == r,
        threat_feature(c, s, perspective) == threat_feature(d, r, perspective) ==> c == d && s == r,
        feature(c, t, s, Color::White) % 64 == s,
{
    crate::types::mirror_is_involution(s);
    crate::types::mirror_is_involution(r);
}

/// The value of a network changes its sign with the side to move.
pub proof fn networks_see_both_sides(n: NnueParams, p: Position, q: Position, b: int)
    requires
        q == (Position { side: p.side.other(), ..p }),
    ensures
        network_value(n, q, b) == -network_value(n, p, b),
{
    assert(crate::nnue::lanes(n, q, Color::White) =~= crate::nnue::lanes(n, p, Color::White)) by {
        same_lanes(n, p, q, Color::White);
    }
    assert(crate::nnue::lanes(n, q, Color::Black) =~= crate::nnue::lanes(n, p, Color::Black)) by {
        same_lanes(n, p, q, Color::Black);
    }
}

proof fn same_threats(
    n: NnueParams,
    p: Position,
    q: Position,
    by: Color,
    c: Color,
    offset: int,
    flip: int,
    j: int,
    k: int,
)
    requires
        q == (Position { side: p.side.other(), ..p }),
    ensures
        crate::nnue::threat_sum(n, p, by, c, offset, flip, j, k) == crate::nnue::threat_sum(
            n,
            q,
            by,
            c,
            offset,
            flip,
            j,
            k,
        ),
    decreases k,
{
    if k > 0 {
        same_threats(n, p, q, by, c, offset, flip, j, k - 1);
        assert(q.pieces@ == p.pieces@ && q.colors@ == p.colors@);
        let t = k - 1;
        let occ = p.colors@[0] | p.colors@[1];
        if crate::nnue::threatens(p, by, t) {
            let s = choose|s: int| #[trigger]
                side_attacks_from(p.pieces@, p.colors@[by.num()], by, occ, s, t);
            assert(side_attacks_from(q.pieces@, q.colors@[by.num()], by, occ, s, t));
        }
        if crate::nnue::threatens(q, by, t) {
            let s = choose|s: int| #[trigger]
                side_attacks_from(q.pieces@, q.colors@[by.num()], by, occ, s, t);
            assert(side_attacks_from(p.pieces@, p.colors@[by.num()], by, occ, s, t));
        }
        assert(crate::nnue::threatens(p, by, k - 1) == crate::nnue::threatens(q, by, k - 1));
    }
}

proof fn same_lanes(n: NnueParams, p: Position, q: Position, c: Color)
    requires
        q == (Position { side: p.side.other(), ..p }),
    ensures
        forall|j: int| #[trigger] crate::nnue::lane(n, p, c, j) == crate::nnue::lane(n, q, c, j),
{
    assert(p.king_square(c) == q.king_square(c));
    assert forall|j: int| #[trigger]
        crate::nnue::lane(n, p, c, j) == crate::nnue::lane(n, q, c, j) by {
        let o = n.offset(p, c);
        let f = n.flip(p, c);
        same_threats(n, p, q, Color::White, c, o, f, j, 64);
        same_threats(n, p, q, Color::Black, c, o, f, j, 64);
    }
}

/// A sum that is cut to 16 bits differs from itself by a multiple of 65536, and one that
/// fits stays.
pub proof fn sums_wrap(x: int)
    ensures
        -32768 <= wrap16(x) <= 32767,
        (x - wrap16(x)) % 65536 == 0,
        -32768 <= x <= 32767 ==> wrap16(x) == x,
{
}

/// What the network says where one is loaded.
spec fn loaded_value(nnue: Nnue, p: Position, k: int) -> int {
    match nnue.params {
        Some(n) => network_value(*n, p, k),
        None => 0,
    }
}

/// A position is judged by the network where one is loaded, by the output for its number of
/// pieces, and else by the evaluation without one. With a fresh halfmove clock nothing is
/// taken off, and with a hundred plies on it about a half.
pub proof fn networks_judge_where_loaded(nnue: Nnue, p: Position, k: int)
    requires
        0 <= k < 8,
        4 * k + 2 <= piece_count(p) < 4 * k + 6,
    ensures
        nnue.params is None ==> position_value(nnue, p) == evaluation(p),
        nnue.params matches Some(n) ==> {
            let v = network_value(*n, p, k);
            &&& p.halfmove_clock == 0 ==> position_value(nnue, p) == v
            &&& p.halfmove_clock == 100 && v % 2 == 0 ==> position_value(nnue, p) == v / 2
            &&& v >= 0 ==> 0 <= position_value(nnue, p) <= v
            &&& v <= 0 ==> v <= position_value(nnue, p) <= 0
        },
{
    if nnue.params is Some {
        crate::weighing::scores_fade(
            loaded_value(nnue, p, k),
            p.halfmove_clock as int,
            p.halfmove_clock as int,
        );
        assert(bucket_of_count(piece_count(p)) == k);
    }
}

} // verus!
