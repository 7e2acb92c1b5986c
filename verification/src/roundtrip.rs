//! A position is read back from its FEN, and a move from its notation.

use crate::board::Position;
use crate::book::squares_tell_moves;
use crate::fen::{
    board_text, described, ep_text, fen_text, field_ep, field_rights, first_named, named_rights,
    placement_board, placement_char, placement_distinct, placement_fits, placement_in_range,
    placement_prefix, placement_square, rank_text, rights_text, run_text, uci_names,
};
use crate::game::describes;
use crate::play::pseudo_legal_is_real;
use crate::rules::{legal, legal_moves, legal_moves_are_legal, playable, sound_facts};
use crate::text::{decimal, decimal_roundtrip, is_digit, is_space, words};
use crate::types::{
    letter_piece, move_parts_roundtrip, piece_letter, piece_letter_roundtrip, square_name,
    square_name_roundtrip, CastlingRights, Color, Move, EMPTY,
};
use vstd::prelude::*;

verus! {

// ---- Words ----
/// A text without white space.
pub open spec fn is_word(t: Seq<char>) -> bool {
    t.len() > 0 && forall|i: int| 0 <= i < t.len() ==> !is_space(#[trigger] t[i])
}

/// A word at the end of a text is its last word.
proof fn last_word(t: Seq<char>, b: Seq<char>)
    requires
        t.len() == 0 || is_space(t.last()),
        is_word(b),
    ensures
        words(t + b) == words(t).push(b),
    decreases b.len(),
{
    let x = t + b;
    assert(x.last() == b.last());
    assert(!is_space(b[b.len() - 1]));
    assert(x.drop_last() =~= t + b.drop_last());
    if b.len() == 1 {
        assert(x.drop_last() =~= t);
        assert(b =~= seq![b.last()]);
        if t.len() > 0 {
            assert(x[x.len() - 2] == t.last());
        }
    } else {
        assert forall|i: int| 0 <= i < b.drop_last().len() implies !is_space(
            #[trigger] b.drop_last()[i],
        ) by {
            assert(!is_space(b[i]));
        }
        last_word(t, b.drop_last());
        assert(x[x.len() - 2] == b[b.len() - 2]);
        assert(!is_space(b[b.len() - 2]));
        assert(words(t).push(b.drop_last()).drop_last() =~= words(t));
        assert(b.drop_last().push(b.last()) =~= b);
    }
}

/// A space and a word at the end of a text.
proof fn next_word(t: Seq<char>, b: Seq<char>)
    requires
        is_word(b),
    ensures
        words(t + seq![' '] + b) == words(t).push(b),
{
    let s = t + seq![' '];
    assert(s.last() == ' ');
    assert(s.drop_last() =~= t);
    last_word(s, b);
}

// ---- Piece placement ----
/// The board as far as it has been read: the ranks above `r`, and of rank `r` the
/// first `k` files.
pub open spec fn read_so_far(m: Seq<u8>, r: int, k: int) -> Seq<u8> {
    Seq::new(
        64,
        |s: int|
            if s / 8 > r || s / 8 == r && s % 8 < k {
                m[s]
            } else {
                EMPTY
            },
    )
}

/// The first `n` characters have been read without fault, up to file `k` of rank `r`.
pub open spec fn stands_at(t: Seq<char>, n: int, m: Seq<u8>, r: int, k: int) -> bool {
    &&& 0 <= n <= t.len()
    &&& placement_square(t, n) == 8 * r + k
    &&& placement_board(t, n) == read_so_far(m, r, k)
    &&& forall|i: int| 0 <= i < n ==> placement_char(#[trigger] t[i]) && t[i] != ' ' && !is_space(
        t[i],
    )
    &&& forall|i: int| 0 <= i < n ==> #[trigger] placement_in_range(t, i)
    &&& forall|i: int|
        0 <= i < n && letter_piece(#[trigger] t[i]) is Some ==> placement_board(
            t,
            i,
        )[placement_square(t, i)] == EMPTY
}

/// The codes of a board.
pub open spec fn codes_known(m: Seq<u8>) -> bool {
    m.len() == 64 && forall|s: int| 0 <= s < 64 ==> #[trigger] m[s] <= 12
}

/// A piece or a run of empty squares is read.
proof fn read_char(t: Seq<char>, n: int, m: Seq<u8>, r: int, k: int)
    requires
        codes_known(m),
        0 <= r < 8,
        0 <= k < 8,
        stands_at(t, n, m, r, k),
        n < t.len(),
        t[n] == piece_letter(m[8 * r + k] as int),
        m[8 * r + k] < 12,
    ensures
        stands_at(t, n + 1, m, r, k + 1),
{
    let c = m[8 * r + k] as int;
    piece_letter_roundtrip(c);
    letter_is_plain(c);
    assert(placement_square(t, n + 1) == 8 * r + k + 1);
    assert((8 * r + k) / 8 == r && (8 * r + k) % 8 == k);
    assert(placement_board(t, n + 1) =~= read_so_far(m, r, k + 1)) by {
        assert forall|s: int| 0 <= s < 64 implies #[trigger] placement_board(t, n + 1)[s] == read_so_far(
            m,
            r,
            k + 1,
        )[s] by {
            if s / 8 == r && s % 8 == k {
                assert(s == 8 * r + k);
            }
        }
    }
}

proof fn letter_is_plain(c: int)
    requires
        0 <= c < 12,
    ensures
        !is_space(piece_letter(c)),
        placement_char(piece_letter(c)),
{
    piece_letter_roundtrip(c);
}

proof fn read_run(t: Seq<char>, n: int, m: Seq<u8>, r: int, k: int, e: int)
    requires
        codes_known(m),
        0 <= r < 8,
        0 <= k,
        0 < e,
        k + e <= 8,
        stands_at(t, n, m, r, k),
        n < t.len(),
        t[n] == (48 + e) as char,
        forall|f: int| k <= f < k + e ==> #[trigger] m[8 * r + f] == EMPTY,
    ensures
        stands_at(t, n + 1, m, r, k + e),
{
    let c = t[n];
    assert('1' <= c <= '8');
    assert(letter_piece(c) is None);
    assert(placement_square(t, n + 1) == 8 * r + k + e);
    assert(placement_board(t, n + 1) =~= read_so_far(m, r, k + e)) by {
        assert forall|s: int| 0 <= s < 64 implies #[trigger] read_so_far(m, r, k)[s] == read_so_far(
            m,
            r,
            k + e,
        )[s] by {
            if s / 8 == r && k <= s % 8 < k + e {
                assert(m[8 * r + s % 8] == EMPTY);
                assert(s == 8 * r + s % 8);
            }
        }
    }
}

proof fn read_slash(t: Seq<char>, n: int, m: Seq<u8>, r: int)
    requires
        codes_known(m),
        0 < r < 8,
        stands_at(t, n, m, r, 8),
        n < t.len(),
        t[n] == '/',
    ensures
        stands_at(t, n + 1, m, r - 1, 0),
{
    assert(letter_piece('/') is None);
    assert(placement_board(t, n + 1) =~= read_so_far(m, r - 1, 0)) by {
        assert forall|s: int| 0 <= s < 64 implies #[trigger] read_so_far(m, r, 8)[s] == read_so_far(
            m,
            r - 1,
            0,
        )[s] by {}
    }
}

/// A rank from a file on is read, after empty squares that are not written yet.
proof fn read_rank(t: Seq<char>, n: int, m: Seq<u8>, r: int, f: int, e: int)
    requires
        codes_known(m),
        0 <= r < 8,
        0 <= e <= f <= 8,
        stands_at(t, n, m, r, f - e),
        n + rank_text(m, r, f, e).len() <= t.len(),
        t.subrange(n, n + rank_text(m, r, f, e).len()) == rank_text(m, r, f, e),
        forall|x: int| f - e <= x < f ==> #[trigger] m[8 * r + x] == EMPTY,
    ensures
        stands_at(t, n + rank_text(m, r, f, e).len(), m, r, 8),
    decreases 8 - f,
{
    let text = rank_text(m, r, f, e);
    let run = run_text(e);
    if f >= 8 {
        if e > 0 {
            assert(t[n] == t.subrange(n, n + text.len())[0]);
            read_run(t, n, m, r, f - e, e);
        }
    } else if m[r * 8 + f] == EMPTY {
        assert(m[8 * r + f] == EMPTY);
        read_rank(t, n, m, r, f + 1, e + 1);
    } else {
        let c = m[8 * r + f] as int;
        let after = rank_text(m, r, f + 1, 0);
        assert(text == run + seq![piece_letter(c)] + after);
        let n1 = n + run.len();
        assert(t[n1] == t.subrange(n, n + text.len())[run.len() as int]);
        if e > 0 {
            assert(t[n] == t.subrange(n, n + text.len())[0]);
            read_run(t, n, m, r, f - e, e);
        }
        read_char(t, n1, m, r, f);
        assert(t.subrange(n1 + 1, n1 + 1 + after.len()) =~= after) by {
            assert forall|i: int| 0 <= i < after.len() implies t[n1 + 1 + i] == #[trigger] after[i] by {
                assert(t.subrange(n, n + text.len())[run.len() + 1 + i] == text[run.len() + 1 + i]);
            }
        }
        read_rank(t, n1 + 1, m, r, f + 1, 0);
    }
}

proof fn read_ranks(t: Seq<char>, n: int, m: Seq<u8>, r: int)
    requires
        codes_known(m),
        0 <= r < 8,
        stands_at(t, n, m, r, 0),
        n + board_text(m, r).len() == t.len(),
        t.skip(n) == board_text(m, r),
    ensures
        stands_at(t, t.len() as int, m, 0, 8),
    decreases r,
{
    let text = board_text(m, r);
    let first = rank_text(m, r, 0, 0);
    let n1 = n + first.len();
    assert(t.subrange(n, n1) =~= first) by {
        assert forall|i: int| 0 <= i < first.len() implies t[n + i] == #[trigger] first[i] by {
            assert(t.skip(n)[i] == text[i]);
        }
    }
    read_rank(t, n, m, r, 0, 0);
    if r > 0 {
        let rest = board_text(m, r - 1);
        assert(t[n1] == t.skip(n)[first.len() as int]);
        read_slash(t, n1, m, r);
        assert(t.skip(n1 + 1) =~= rest) by {
            assert forall|i: int| 0 <= i < rest.len() implies t[n1 + 1 + i] == #[trigger] rest[i] by {
                assert(t.skip(n)[first.len() + 1 + i] == text[first.len() + 1 + i]);
            }
        }
        read_ranks(t, n1 + 1, m, r - 1);
    }
}

/// A board is read back from its placement.
pub proof fn board_roundtrip(m: Seq<u8>)
    requires
        codes_known(m),
    ensures
        ({
            let t = board_text(m, 7);
            &&& placement_board(t, t.len() as int) == m
            &&& placement_prefix(t, t.len() as int)
            &&& placement_fits(t)
            &&& placement_distinct(t)
            &&& is_word(t)
        }),
{
    let t = board_text(m, 7);
    assert(placement_board(t, 0) =~= read_so_far(m, 7, 0));
    assert(t.skip(0) =~= t);
    read_ranks(t, 0, m, 7);
    let n = t.len() as int;
    assert(placement_board(t, n) =~= m) by {
        assert forall|s: int| 0 <= s < 64 implies #[trigger] read_so_far(m, 0, 8)[s] == m[s] by {}
    }
    assert(t.len() > 0) by {
        assert(board_text(m, 7).len() >= 1);
    }
    assert(placement_in_range(t, n));
}

// ---- The other fields ----
proof fn rights_bits(x: u8)
    by (bit_vector)
    requires
        x < 16,
    ensures
        (((if x & 1 != 0 {
            1u8
        } else {
            0u8
        }) | (if x & 2 != 0 {
            2u8
        } else {
            0u8
        })) | (if x & 4 != 0 {
            4u8
        } else {
            0u8
        })) | (if x & 8 != 0 {
            8u8
        } else {
            0u8
        }) == x,
        0u8 | 1u8 == 1u8,
        0u8 | 2u8 == 2u8,
        0u8 | 4u8 == 4u8,
        0u8 | 8u8 == 8u8,
        0u8 | 0u8 == 0u8,
        x | 0u8 == x,
        1u8 | 0u8 == 1u8,
        2u8 | 0u8 == 2u8,
        4u8 | 0u8 == 4u8,
        8u8 | 0u8 == 8u8,
        (1u8 | 2u8) | 0u8 == 1u8 | 2u8,
        (1u8 | 4u8) | 0u8 == 1u8 | 4u8,
        (2u8 | 4u8) | 0u8 == 2u8 | 4u8,
        ((1u8 | 2u8) | 4u8) | 0u8 == (1u8 | 2u8) | 4u8,
{
}

/// The next right of a castling field.
proof fn named_more(t: Seq<char>, c: char)
    ensures
        named_rights(t.push(c), t.len() as int + 1) == ({
            let r = named_rights(t, t.len() as int);
            if c == 'K' {
                r | 1
            } else if c == 'Q' {
                r | 2
            } else if c == 'k' {
                r | 4
            } else if c == 'q' {
                r | 8
            } else {
                r
            }
        }),
{
    named_prefix(t, t.push(c), t.len() as int);
}

proof fn named_prefix(a: Seq<char>, b: Seq<char>, n: int)
    requires
        n <= a.len(),
        n <= b.len(),
        forall|i: int| 0 <= i < n ==> #[trigger] a[i] == b[i],
    ensures
        named_rights(a, n) == named_rights(b, n),
    decreases n,
{
    if n > 0 {
        assert(a[n - 1] == b[n - 1]);
        named_prefix(a, b, n - 1);
    }
}

proof fn rights_roundtrip(c: CastlingRights)
    requires
        c.0 < 16,
    ensures
        field_rights(rights_text(c)) == c.0,
        is_word(rights_text(c)),
{
    reveal_strlit("-");
    let x = c.0;
    rights_bits(x);
    if x == 0 {
        assert(seq!['-'] =~= "-"@);
    } else {
        let e = Seq::<char>::empty();
        let k = if c.holds(1) {
            seq!['K']
        } else {
            e
        };
        assert(e.push('K') =~= seq!['K']);
        named_more(e, 'K');
        let q = if c.holds(2) {
            k.push('Q')
        } else {
            k
        };
        named_more(k, 'Q');
        let bk = if c.holds(4) {
            q.push('k')
        } else {
            q
        };
        named_more(q, 'k');
        named_more(bk, 'q');
        let t = rights_text(c);
        assert(t.len() > 0);
        assert(t != "-"@) by {
            assert(t[0] != '-');
        }
        assert forall|i: int| 0 <= i < t.len() implies !is_space(#[trigger] t[i]) by {
            assert(t[i] == 'K' || t[i] == 'Q' || t[i] == 'k' || t[i] == 'q');
        }
    }
}

proof fn ep_roundtrip(ep: int)
    requires
        0 <= ep <= 64,
    ensures
        field_ep(ep_text(ep)) == ep,
        is_word(ep_text(ep)),
{
    reveal_strlit("-");
    if ep == 64 {
        assert(ep_text(ep) =~= "-"@);
    } else {
        square_name_roundtrip(ep);
        assert(square_name(ep).len() == 2);
        assert("-"@.len() == 1);
    }
}

proof fn number_is_word(n: nat)
    ensures
        is_word(decimal(n)),
{
    decimal_roundtrip(n);
    assert forall|i: int| 0 <= i < decimal(n).len() implies !is_space(#[trigger] decimal(n)[i]) by {
        assert(is_digit(decimal(n)[i]));
    }
}

/// A position is read back from its FEN: the text is a FEN of the position, and
/// of no other.
pub proof fn fen_roundtrip(p: Position)
    requires
        p.wf(),
    ensures
        describes(fen_text(p), p),
        forall|q: Position| #[trigger] describes(fen_text(p), q) ==> q == p,
{
    let m = p.mailbox@;
    crate::board::codes_bounded(p);
    board_roundtrip(m);
    let b = board_text(m, 7);
    let side = seq![
        (if p.side == Color::White {
            'w'
        } else {
            'b'
        }),
    ];
    let r = rights_text(p.castling);
    let e = ep_text(p.ep_square as int);
    let h = decimal(p.halfmove_clock as nat);
    let f = decimal(p.fullmove as nat);
    rights_roundtrip(p.castling);
    ep_roundtrip(p.ep_square as int);
    number_is_word(p.halfmove_clock as nat);
    number_is_word(p.fullmove as nat);
    let none = Seq::<char>::empty();
    last_word(none, b);
    assert(none + b =~= b);
    next_word(b, side);
    let t2 = b + seq![' '] + side;
    next_word(t2, r);
    let t3 = t2 + seq![' '] + r;
    next_word(t3, e);
    let t4 = t3 + seq![' '] + e;
    next_word(t4, h);
    let t5 = t4 + seq![' '] + h;
    next_word(t5, f);
    let t6 = t5 + seq![' '] + f;
    assert(t6 =~= fen_text(p));
    let w = words(fen_text(p));
    assert(w =~= seq![b, side, r, e, h, f]);
    reveal_strlit("w");
    reveal_strlit("b");
    assert(seq!['w'] =~= "w"@);
    assert(seq!['b'] =~= "b"@);
    assert("w"@[0] != "b"@[0]);
    decimal_roundtrip(p.halfmove_clock as nat);
    decimal_roundtrip(p.fullmove as nat);
    assert(described(w, p));
    assert forall|q: Position| #[trigger] describes(fen_text(p), q) implies q == p by {
        crate::game::describes_once(w, p, q);
    }
}

/// The only move of a list that a text names is the first.
proof fn only_named(l: Seq<Move>, t: Seq<char>, mv: Move)
    requires
        l.contains(mv),
        uci_names(t, mv),
        forall|i: int| 0 <= i < l.len() && uci_names(t, #[trigger] l[i]) ==> l[i] == mv,
    ensures
        first_named(l, t) == Some(mv),
    decreases l.len(),
{
    let rest = l.skip(1);
    let k = choose|k: int| 0 <= k < l.len() && l[k] == mv;
    if !uci_names(t, l[0]) {
        assert(rest[k - 1] == mv);
        assert forall|i: int| 0 <= i < rest.len() && uci_names(t, #[trigger] rest[i]) implies rest[i]
            == mv by {
            assert(rest[i] == l[i + 1]);
        }
        only_named(rest, t, mv);
    }
}

/// A legal move is read back from its UCI notation.
pub proof fn uci_roundtrip(p: Position, mv: Move)
    requires
        playable(p),
        legal(p, mv),
    ensures
        first_named(legal_moves(p), mv.uci()) == Some(mv),
{
    let t = mv.uci();
    let l = legal_moves(p);
    sound_facts(p);
    pseudo_legal_is_real(p, mv);
    move_parts_roundtrip(mv);
    square_name_roundtrip(mv.src());
    square_name_roundtrip(mv.dst());
    assert(t.skip(2)[0] == square_name(mv.dst())[0] && t.skip(2)[1] == square_name(mv.dst())[1]);
    assert(uci_names(t, mv));
    legal_moves_are_legal(p, mv);
    assert forall|i: int| 0 <= i < l.len() && uci_names(t, #[trigger] l[i]) implies l[i] == mv by {
        let m = l[i];
        assert(l.contains(m));
        legal_moves_are_legal(p, m);
        move_parts_roundtrip(m);
        squares_tell_moves(p, m, mv);
    }
    only_named(l, t, mv);
}

} // verus!
