//! The mirror image of a position: the evaluation knows no colours.

use crate::attacks::{attack_set, piece_attacks};
use crate::bitboard::{group_bits, member, squares, squares_facts};
use crate::board::{agree, Position};
use crate::eval::{
    bishop_pair, end_score, end_sum, end_term, evaluation, file_is_free, middle_score, middle_sum,
    middle_term, mobility, passed, phase, phase_sum, phase_value, seen_from, stops,
};
use crate::magic::{along, distance, on_ray, on_the_way, slides, steps};
use crate::nnue::{
    feature, lane, lanes, piece_sum, piece_weight, threat_feature, NnueParams,
};
use crate::rules::attack_set_exists;
use crate::types::{color_of, file, mirrored, on_board, piece_code, rank, Color, PieceType};
use vstd::prelude::*;

verus! {

/// The code of the piece in the other colour.
pub open spec fn recoloured(code: int) -> int {
    if code < 6 {
        code + 6
    } else if code < 12 {
        code - 6
    } else {
        code
    }
}

/// The second position is the mirror image of the first: the ranks are reversed
/// and the colours exchanged, that of the side to move among them.
pub open spec fn mirror_image(p: Position, q: Position) -> bool {
    &&& q.side == p.side.other()
    &&& forall|s: int|
        0 <= s < 64 ==> #[trigger] q.mailbox@[s] == recoloured(p.mailbox@[mirrored(s)] as int)
}

/// A set of squares and its mirror image.
spec fn mirror_sets(a: u64, b: u64) -> bool {
    forall|s: int| on_board(s) ==> #[trigger] member(b, s) == member(a, mirrored(s))
}

proof fn mirror_facts(s: int)
    requires
        on_board(s),
    ensures
        on_board(mirrored(s)),
        file(mirrored(s)) == file(s),
        rank(mirrored(s)) == 7 - rank(s),
        mirrored(mirrored(s)) == s,
{
}

proof fn sets_swap(a: u64, b: u64)
    requires
        mirror_sets(a, b),
    ensures
        mirror_sets(b, a),
{
    assert forall|s: int| on_board(s) implies #[trigger] member(a, s) == member(b, mirrored(s)) by {
        mirror_facts(s);
        assert(member(b, mirrored(s)) == member(a, mirrored(mirrored(s))));
    }
}

proof fn image_swaps(p: Position, q: Position)
    requires
        p.wf_boards(),
        mirror_image(p, q),
    ensures
        mirror_image(q, p),
{
    reveal(agree);
    assert forall|s: int| 0 <= s < 64 implies #[trigger] p.mailbox@[s] == recoloured(
        q.mailbox@[mirrored(s)] as int,
    ) by {
        mirror_facts(s);
        assert(q.mailbox@[mirrored(s)] == recoloured(p.mailbox@[mirrored(mirrored(s))] as int));
    }
}

// ---- Attacks ----
proof fn slides_in_mirror(a: u64, b: u64, s: int, t: int, df: int, dr: int)
    requires
        mirror_sets(a, b),
        on_board(s),
        on_board(t),
        -1 <= df <= 1,
        -1 <= dr <= 1,
        slides(a, s, t, df, dr),
    ensures
        slides(b, mirrored(s), mirrored(t), df, -dr),
{
    mirror_facts(s);
    mirror_facts(t);
    let ms = mirrored(s);
    let mt = mirrored(t);
    assert(distance(ms, mt) == distance(s, t));
    assert(on_ray(ms, mt, df, -dr));
    assert forall|k: int| 1 <= k < distance(ms, mt) implies !member(
        b,
        #[trigger] along(ms, df, -dr, k),
    ) by {
        let x = along(s, df, dr, k);
        on_the_way(s, t, df, dr, k);
        on_the_way(ms, mt, df, -dr, k);
        mirror_facts(x);
        let y = along(ms, df, -dr, k);
        assert(x == 8 * (rank(s) + steps(dr, k)) + (file(s) + steps(df, k)));
        assert(y == 8 * (7 - rank(s) + steps(-dr, k)) + (file(s) + steps(df, k)));
        assert(steps(-dr, k) == -steps(dr, k));
        assert(rank(x) == rank(s) + steps(dr, k));
        assert(file(x) == file(s) + steps(df, k));
        assert(y == mirrored(x));
        assert(!member(a, x));
        mirror_facts(y);
        assert(member(b, y) == member(a, mirrored(y)));
    }
}

proof fn slides_mirrored(a: u64, b: u64, s: int, t: int, df: int, dr: int)
    requires
        mirror_sets(a, b),
        on_board(s),
        on_board(t),
        -1 <= df <= 1,
        -1 <= dr <= 1,
    ensures
        slides(a, s, t, df, dr) == slides(b, mirrored(s), mirrored(t), df, -dr),
{
    mirror_facts(s);
    mirror_facts(t);
    if slides(a, s, t, df, dr) {
        slides_in_mirror(a, b, s, t, df, dr);
    }
    if slides(b, mirrored(s), mirrored(t), df, -dr) {
        sets_swap(a, b);
        slides_in_mirror(b, a, mirrored(s), mirrored(t), df, -dr);
    }
}

/// A piece attacks a square exactly if in the mirror image the same piece of the
/// other colour attacks the mirrored square.
pub proof fn attacks_mirrored(c: Color, pt: PieceType, a: u64, b: u64, s: int, t: int)
    requires
        on_board(s),
        on_board(t),
        forall|x: int| on_board(x) ==> #[trigger] member(b, x) == member(a, mirrored(x)),
    ensures
        piece_attacks(c, pt, a, s, t) == piece_attacks(c.other(), pt, b, mirrored(s), mirrored(t)),
{
    mirror_facts(s);
    mirror_facts(t);
    assert(mirror_sets(a, b));
    slides_mirrored(a, b, s, t, 1, 1);
    slides_mirrored(a, b, s, t, 1, -1);
    slides_mirrored(a, b, s, t, -1, 1);
    slides_mirrored(a, b, s, t, -1, -1);
    slides_mirrored(a, b, s, t, 1, 0);
    slides_mirrored(a, b, s, t, -1, 0);
    slides_mirrored(a, b, s, t, 0, 1);
    slides_mirrored(a, b, s, t, 0, -1);
}

// ---- Sets ----
proof fn no_more_squares(a: u64, b: u64)
    requires
        mirror_sets(a, b),
    ensures
        squares(a).len() <= squares(b).len(),
{
    squares_facts(a);
    squares_facts(b);
    sets_swap(a, b);
    let l = squares(a);
    let m = l.map_values(|x: int| mirrored(x));
    assert forall|i: int, j: int| 0 <= i < j < m.len() implies m[i] != m[j] by {
        mirror_facts(l[i]);
        mirror_facts(l[j]);
    }
    assert(m.no_duplicates());
    assert(squares(b).no_duplicates());
    m.unique_seq_to_set();
    squares(b).unique_seq_to_set();
    assert forall|x: int| m.to_set().contains(x) implies #[trigger] squares(b).to_set().contains(
        x,
    ) by {
        let i = choose|i: int| 0 <= i < m.len() && m[i] == x;
        mirror_facts(l[i]);
        assert(member(a, l[i]));
        assert(member(b, mirrored(l[i])));
    }
    vstd::set_lib::lemma_len_subset(m.to_set(), squares(b).to_set());
}

proof fn as_many_squares(a: u64, b: u64)
    requires
        mirror_sets(a, b),
    ensures
        squares(a).len() == squares(b).len(),
{
    no_more_squares(a, b);
    sets_swap(a, b);
    no_more_squares(b, a);
}

proof fn sets_of_image(p: Position, q: Position, t: int, c: Color)
    requires
        p.wf_boards(),
        q.wf_boards(),
        mirror_image(p, q),
        0 <= t < 6,
    ensures
        mirror_sets(p.pieces@[t], q.pieces@[t]),
        mirror_sets(p.colors@[c.num()], q.colors@[c.other().num()]),
        mirror_sets(p.colors@[0] | p.colors@[1], q.colors@[0] | q.colors@[1]),
        mirror_sets(
            p.pieces@[t] & p.colors@[c.num()],
            q.pieces@[t] & q.colors@[c.other().num()],
        ),
{
    broadcast use group_bits;

    reveal(agree);
    assert forall|s: int| on_board(s) implies #[trigger] member(q.pieces@[t], s) == member(
        p.pieces@[t],
        mirrored(s),
    ) by {
        mirror_facts(s);
        assert(q.mailbox@[s] == recoloured(p.mailbox@[mirrored(s)] as int));
    }
    assert forall|s: int, d: Color| on_board(s) implies #[trigger] member(
        q.colors@[d.other().num()],
        s,
    ) == member(p.colors@[d.num()], mirrored(s)) by {
        mirror_facts(s);
        assert(q.mailbox@[s] == recoloured(p.mailbox@[mirrored(s)] as int));
    }
    assert forall|s: int| on_board(s) implies #[trigger] member(
        q.colors@[0] | q.colors@[1],
        s,
    ) == member(p.colors@[0] | p.colors@[1], mirrored(s)) by {
        mirror_facts(s);
        assert(member(q.colors@[Color::White.other().num()], s) == member(
            p.colors@[Color::White.num()],
            mirrored(s),
        ));
        assert(member(q.colors@[Color::Black.other().num()], s) == member(
            p.colors@[Color::Black.num()],
            mirrored(s),
        ));
    }
    assert forall|s: int| on_board(s) implies #[trigger] member(
        q.pieces@[t] & q.colors@[c.other().num()],
        s,
    ) == member(p.pieces@[t] & p.colors@[c.num()], mirrored(s)) by {
        mirror_facts(s);
        assert(member(q.pieces@[t], s) == member(p.pieces@[t], mirrored(s)));
        assert(member(q.colors@[c.other().num()], s) == member(p.colors@[c.num()], mirrored(s)));
    }
}

// ---- Terms ----
proof fn mobility_mirrored(p: Position, q: Position, c: Color, pt: PieceType, s: int)
    requires
        p.wf_boards(),
        q.wf_boards(),
        mirror_image(p, q),
        on_board(s),
    ensures
        mobility(p, c, pt, s) == mobility(q, c.other(), pt, mirrored(s)),
{
    broadcast use group_bits;

    mirror_facts(s);
    sets_of_image(p, q, 0, c);
    let o = p.colors@[0] | p.colors@[1];
    let r = q.colors@[0] | q.colors@[1];
    let x = attack_set(c, pt, o, s);
    let y = attack_set(c.other(), pt, r, mirrored(s));
    attack_set_exists(c, pt, o, s);
    attack_set_exists(c.other(), pt, r, mirrored(s));
    let a = x & !p.colors@[c.num()];
    let b = y & !q.colors@[c.other().num()];
    assert forall|t: int| on_board(t) implies #[trigger] member(b, t) == member(a, mirrored(t)) by {
        mirror_facts(t);
        attacks_mirrored(c, pt, o, r, s, mirrored(t));
        assert(member(y, t) == piece_attacks(c.other(), pt, r, mirrored(s), t));
        assert(member(x, mirrored(t)) == piece_attacks(c, pt, o, s, mirrored(t)));
        assert(member(q.colors@[c.other().num()], t) == member(p.colors@[c.num()], mirrored(t)));
    }
    as_many_squares(a, b);
}

proof fn free_in_mirror(p: Position, q: Position, c: Color, s: int)
    requires
        p.wf_boards(),
        mirror_image(p, q),
        on_board(s),
        file_is_free(p.mailbox@, c, s),
    ensures
        file_is_free(q.mailbox@, c.other(), mirrored(s)),
{
    reveal(agree);
    mirror_facts(s);
    assert forall|t: int|
        0 <= t < 64 && file(t) == file(mirrored(s)) implies #[trigger] q.mailbox@[t] != piece_code(
        c.other(),
        PieceType::Pawn,
    ) by {
        mirror_facts(t);
        assert(p.mailbox@[mirrored(t)] != piece_code(c, PieceType::Pawn));
    }
}

proof fn free_mirrored(p: Position, q: Position, c: Color, s: int)
    requires
        p.wf_boards(),
        q.wf_boards(),
        mirror_image(p, q),
        on_board(s),
    ensures
        file_is_free(p.mailbox@, c, s) == file_is_free(q.mailbox@, c.other(), mirrored(s)),
{
    mirror_facts(s);
    if file_is_free(p.mailbox@, c, s) {
        free_in_mirror(p, q, c, s);
    }
    if file_is_free(q.mailbox@, c.other(), mirrored(s)) {
        image_swaps(p, q);
        free_in_mirror(q, p, c.other(), mirrored(s));
    }
}

proof fn passed_in_mirror(p: Position, q: Position, c: Color, s: int)
    requires
        p.wf_boards(),
        mirror_image(p, q),
        on_board(s),
        passed(p.mailbox@, c, s),
    ensures
        passed(q.mailbox@, c.other(), mirrored(s)),
{
    reveal(agree);
    mirror_facts(s);
    let d = c.other();
    assert forall|t: int|
        0 <= t < 64 && #[trigger] q.mailbox@[t] == piece_code(d.other(), PieceType::Pawn) implies !stops(
        d,
        mirrored(s),
        t,
    ) by {
        mirror_facts(t);
        assert(p.mailbox@[mirrored(t)] == piece_code(d, PieceType::Pawn));
        assert(!stops(c, s, mirrored(t)));
    }
}

proof fn passed_mirrored(p: Position, q: Position, c: Color, s: int)
    requires
        p.wf_boards(),
        q.wf_boards(),
        mirror_image(p, q),
        on_board(s),
    ensures
        passed(p.mailbox@, c, s) == passed(q.mailbox@, c.other(), mirrored(s)),
{
    mirror_facts(s);
    if passed(p.mailbox@, c, s) {
        passed_in_mirror(p, q, c, s);
    }
    if passed(q.mailbox@, c.other(), mirrored(s)) {
        image_swaps(p, q);
        passed_in_mirror(q, p, c.other(), mirrored(s));
    }
}

proof fn terms_mirrored(p: Position, q: Position, c: Color, t: int, s: int)
    requires
        p.wf_boards(),
        q.wf_boards(),
        mirror_image(p, q),
        on_board(s),
    ensures
        middle_term(p, c, t, s) == middle_term(q, c.other(), t, mirrored(s)),
        end_term(p, c, t, s) == end_term(q, c.other(), t, mirrored(s)),
{
    mirror_facts(s);
    assert(seen_from(c, s) == seen_from(c.other(), mirrored(s)));
    free_mirrored(p, q, c, s);
    free_mirrored(p, q, c.other(), s);
    passed_mirrored(p, q, c, s);
    mobility_mirrored(p, q, c, PieceType::Knight, s);
    mobility_mirrored(p, q, c, PieceType::Bishop, s);
}

// ---- Sums ----
/// The sum of a function over the squares below `n`.
spec fn total(f: spec_fn(int) -> int, n: int) -> int
    decreases n,
{
    if n <= 0 {
        0
    } else {
        total(f, n - 1) + f(n - 1)
    }
}

/// The sum of a function over a rank.
spec fn row(f: spec_fn(int) -> int, r: int) -> int {
    f(8 * r) + f(8 * r + 1) + f(8 * r + 2) + f(8 * r + 3) + f(8 * r + 4) + f(8 * r + 5) + f(
        8 * r + 6,
    ) + f(8 * r + 7)
}

proof fn next_row(f: spec_fn(int) -> int, r: int)
    requires
        0 <= r,
    ensures
        total(f, 8 * r + 8) == total(f, 8 * r) + row(f, r),
{
    reveal_with_fuel(total, 9);
}

proof fn total_by_rows(f: spec_fn(int) -> int)
    ensures
        total(f, 64) == row(f, 0) + row(f, 1) + row(f, 2) + row(f, 3) + row(f, 4) + row(f, 5) + row(
            f,
            6,
        ) + row(f, 7),
{
    next_row(f, 0);
    next_row(f, 1);
    next_row(f, 2);
    next_row(f, 3);
    next_row(f, 4);
    next_row(f, 5);
    next_row(f, 6);
    next_row(f, 7);
}

proof fn row_mirrored(f: spec_fn(int) -> int, g: spec_fn(int) -> int, r: int)
    requires
        forall|s: int| 0 <= s < 64 ==> #[trigger] g(s) == f(mirrored(s)),
        0 <= r < 8,
    ensures
        row(g, r) == row(f, 7 - r),
{
    assert forall|i: int| 0 <= i < 8 implies #[trigger] g(8 * r + i) == f(8 * (7 - r) + i) by {
        assert(mirrored(8 * r + i) == 8 * (7 - r) + i);
    }
    assert(g(8 * r + 0) == f(8 * (7 - r) + 0));
}

proof fn total_mirrored(f: spec_fn(int) -> int, g: spec_fn(int) -> int)
    requires
        forall|s: int| 0 <= s < 64 ==> #[trigger] g(s) == f(mirrored(s)),
    ensures
        total(g, 64) == total(f, 64),
{
    total_by_rows(f);
    total_by_rows(g);
    row_mirrored(f, g, 0);
    row_mirrored(f, g, 1);
    row_mirrored(f, g, 2);
    row_mirrored(f, g, 3);
    row_mirrored(f, g, 4);
    row_mirrored(f, g, 5);
    row_mirrored(f, g, 6);
    row_mirrored(f, g, 7);
}

/// What a square counts for a colour in the middlegame.
spec fn middle_at(p: Position, c: Color, s: int) -> int {
    let code = p.mailbox@[s] as int;
    if code < 12 && color_of(code) == c {
        middle_term(p, c, code % 6, s)
    } else {
        0
    }
}

/// What a square counts for a colour in the endgame.
spec fn end_at(p: Position, c: Color, s: int) -> int {
    let code = p.mailbox@[s] as int;
    if code < 12 && color_of(code) == c {
        end_term(p, c, code % 6, s)
    } else {
        0
    }
}

/// What a square takes off the weight of the middlegame score.
spec fn phase_at(p: Position, s: int) -> int {
    if p.mailbox@[s] < 12 {
        phase_value(p.mailbox@[s] as int % 6)
    } else {
        0
    }
}

proof fn sums_are_totals(p: Position, c: Color, n: int)
    requires
        0 <= n <= 64,
    ensures
        middle_sum(p, c, n) == total(|s: int| middle_at(p, c, s), n),
        end_sum(p, c, n) == total(|s: int| end_at(p, c, s), n),
        phase_sum(p.mailbox@, n) == total(|s: int| phase_at(p, s), n),
    decreases n,
{
    if n > 0 {
        sums_are_totals(p, c, n - 1);
    }
}

proof fn sums_mirrored(p: Position, q: Position, c: Color)
    requires
        p.wf_boards(),
        q.wf_boards(),
        mirror_image(p, q),
    ensures
        middle_sum(p, c, 64) == middle_sum(q, c.other(), 64),
        end_sum(p, c, 64) == end_sum(q, c.other(), 64),
        phase_sum(p.mailbox@, 64) == phase_sum(q.mailbox@, 64),
{
    let d = c.other();
    sums_are_totals(p, c, 64);
    sums_are_totals(q, d, 64);
    assert forall|s: int| 0 <= s < 64 implies middle_at(q, d, s) == #[trigger] middle_at(
        p,
        c,
        mirrored(s),
    ) && end_at(q, d, s) == end_at(p, c, mirrored(s)) && phase_at(q, s) == phase_at(
        p,
        mirrored(s),
    ) by {
        reveal(agree);
        mirror_facts(s);
        let x = p.mailbox@[mirrored(s)] as int;
        assert(q.mailbox@[s] == recoloured(x));
        terms_mirrored(p, q, c, x % 6, mirrored(s));
    }
    let f = |s: int| middle_at(p, c, s);
    let g = |s: int| middle_at(q, d, s);
    assert forall|s: int| 0 <= s < 64 implies #[trigger] g(s) == f(mirrored(s)) by {
        assert(middle_at(q, d, s) == middle_at(p, c, mirrored(s)));
    }
    total_mirrored(f, g);
    let f = |s: int| end_at(p, c, s);
    let g = |s: int| end_at(q, d, s);
    assert forall|s: int| 0 <= s < 64 implies #[trigger] g(s) == f(mirrored(s)) by {
        assert(middle_at(q, d, s) == middle_at(p, c, mirrored(s)));
    }
    total_mirrored(f, g);
    let f = |s: int| phase_at(p, s);
    let g = |s: int| phase_at(q, s);
    assert forall|s: int| 0 <= s < 64 implies #[trigger] g(s) == f(mirrored(s)) by {
        assert(middle_at(q, d, s) == middle_at(p, c, mirrored(s)));
    }
    total_mirrored(f, g);
}

proof fn scores_mirrored(p: Position, q: Position, c: Color)
    requires
        p.wf_boards(),
        q.wf_boards(),
        mirror_image(p, q),
    ensures
        middle_score(p, c) == middle_score(q, c.other()),
        end_score(p, c) == end_score(q, c.other()),
        phase(p) == phase(q),
{
    sums_mirrored(p, q, c);
    sets_of_image(p, q, 2, c);
    as_many_squares(p.pieces@[2] & p.colors@[c.num()], q.pieces@[2] & q.colors@[c.other().num()]);
    assert(bishop_pair(p, c) == bishop_pair(q, c.other()));
}

/// The hand-crafted evaluation does not depend on the colours: to the side to
/// move, a position is worth what its mirror image is worth.
pub proof fn evaluation_mirrored(p: Position, q: Position)
    requires
        p.wf_boards(),
        q.wf_boards(),
        mirror_image(p, q),
    ensures
        evaluation(p) == evaluation(q),
{
    scores_mirrored(p, q, p.side);
    scores_mirrored(p, q, p.side.other());
}

// ---- The network ----
/// Black's features are White's, mirrored: a feature of one perspective is that of
/// the other in the mirror image.
pub proof fn features_mirrored(c: Color, t: int, s: int, perspective: Color)
    requires
        on_board(s),
    ensures
        feature(c, t, s, perspective) == feature(c.other(), t, mirrored(s), perspective.other()),
        threat_feature(c, s, perspective) == threat_feature(
            c.other(),
            mirrored(s),
            perspective.other(),
        ),
{
    mirror_facts(s);
}

proof fn pieces_are_totals(n: NnueParams, p: Position, c: Color, j: int, k: int)
    requires
        0 <= k <= 64,
    ensures
        piece_sum(n, p.mailbox@, c, 0, 0, j, k) == total(
            |s: int| piece_weight(n, p.mailbox@[s] as int, s, c, 0, 0, j),
            k,
        ),
    decreases k,
{
    if k > 0 {
        pieces_are_totals(n, p, c, j, k - 1);
    }
}

/// A network without king buckets sees the same in the mirror image, with the
/// perspectives exchanged.
pub proof fn lanes_mirrored(n: NnueParams, p: Position, q: Position, c: Color)
    requires
        p.wf_boards(),
        q.wf_boards(),
        mirror_image(p, q),
        n.num_buckets <= 1,
    ensures
        lanes(n, p, c) == lanes(n, q, c.other()),
{
    let d = c.other();
    assert forall|j: int| 0 <= j < n.hidden_size implies #[trigger] lane(n, p, c, j) == lane(
        n,
        q,
        d,
        j,
    ) by {
        pieces_are_totals(n, p, c, j, 64);
        pieces_are_totals(n, q, d, j, 64);
        let f = |s: int| piece_weight(n, p.mailbox@[s] as int, s, c, 0, 0, j);
        let g = |s: int| piece_weight(n, q.mailbox@[s] as int, s, d, 0, 0, j);
        assert forall|s: int| 0 <= s < 64 implies #[trigger] g(s) == f(mirrored(s)) by {
            reveal(agree);
            mirror_facts(s);
            let x = p.mailbox@[mirrored(s)] as int;
            assert(q.mailbox@[s] == recoloured(x));
            features_mirrored(color_of(x), x % 6, mirrored(s), c);
        }
        total_mirrored(f, g);
    }
    assert(lanes(n, p, c) =~= lanes(n, q, d));
}

} // verus!
