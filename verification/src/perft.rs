//! Counting the leaves of the move tree, which validates move generation.

use crate::board::{after, Position};
use crate::movegen::{all_moves, generate_all, mover_is_safe};
use crate::rules::{
    all_moves_are_pseudo_legal, move_keeps_sound, playable, pseudo_legal, pseudo_legal_fits, safe,
    sound_facts,
};
use crate::types::{Move, MoveList, UndoInfo};
use vstd::prelude::*;

verus! {

/// The number of sequences of `d` legal moves.
pub open spec fn leaves(p: Position, d: nat) -> nat
    decreases d, all_moves(p).len() + 1,
{
    if d == 0 {
        1
    } else {
        leaves_below(p, all_moves(p), d)
    }
}

/// The number of sequences of `d` legal moves whose first move is in the list.
pub open spec fn leaves_below(p: Position, l: Seq<Move>, d: nat) -> nat
    decreases d, l.len(),
{
    if l.len() == 0 || d == 0 {
        0
    } else {
        leaves_below(p, l.drop_last(), d) + if safe(p, l.last()) {
            leaves(after(p, l.last()), (d - 1) as nat)
        } else {
            0
        }
    }
}

/// What a counter of 64 bits shows for a number. A number that fits is shown as it
/// is.
pub open spec fn shown(n: nat) -> u64 {
    (n % 0x1_0000_0000_0000_0000) as u64
}

/// Counting on from a counter shows the sum.
proof fn shown_sum(a: nat, b: nat)
    ensures
        shown(a).wrapping_add(shown(b)) == shown(a + b),
        a <= u64::MAX ==> shown(a) == a,
{
    vstd::arithmetic::div_mod::lemma_add_mod_noop(a as int, b as int, 0x1_0000_0000_0000_0000);
}

/// Counts the leaves of the move tree at a depth.
pub fn perft(pos: &mut Position, depth: u32) -> (nodes: u64)
    requires
        playable(*old(pos)),
        old(pos).clock_room(depth as int),
    ensures
        *final(pos) == *old(pos),
        nodes == shown(leaves(*old(pos), depth as nat)),
        leaves(*old(pos), depth as nat) <= u64::MAX ==> nodes == leaves(
            *old(pos),
            depth as nat,
        ),
    decreases depth,
{
    proof {
        shown_sum(leaves(*pos, depth as nat), 0);
    }
    if depth == 0 {
        assert(shown(1) == 1);
        return 1;
    }
    let mut list: MoveList = MoveList::new();
    proof {
        sound_facts(*pos);
    }
    generate_all(pos, &mut list);
    assert(list@ =~= all_moves(*pos));
    let mut nodes: u64 = 0;
    let mut i: usize = 0;
    while i < list.len
        invariant
            i <= list@.len(),
            list.wf(),
            depth > 0,
            *pos == *old(pos),
            playable(*pos),
            pos.clock_room(depth as int),
            list@ == all_moves(*pos),
            nodes == shown(leaves_below(*pos, list@.take(i as int), depth as nat)),
        decreases list@.len() - i,
    {
        let mv: Move = list.moves[i];
        let ghost p = *pos;
        proof {
            assert(list@.contains(mv));
            sound_facts(p);
            all_moves_are_pseudo_legal(p, mv);
            pseudo_legal_fits(p, mv);
            let l = list@.take(i as int + 1);
            assert(l.drop_last() =~= list@.take(i as int));
            shown_sum(
                leaves_below(p, list@.take(i as int), depth as nat),
                leaves(after(p, mv), (depth - 1) as nat),
            );
        }
        let undo: UndoInfo = pos.make_move(mv);
        proof {
            move_keeps_sound(p, mv, *pos, undo);
            sound_facts(*pos);
        }
        if mover_is_safe(pos) {
            nodes = nodes.wrapping_add(perft(pos, depth - 1));
        }
        pos.unmake_move(mv, undo);
        i = i + 1;
    }
    assert(list@.take(i as int) =~= list@);
    nodes
}

/// What one move contributes to a divided count: a move counts 1 at depth 1 or less.
pub open spec fn share(p: Position, mv: Move, depth: u32) -> nat {
    if depth <= 1 {
        1
    } else {
        leaves(after(p, mv), (depth - 1) as nat)
    }
}

/// The safe moves of a list with their shares.
pub open spec fn shares(p: Position, l: Seq<Move>, depth: u32) -> Seq<(Move, nat)>
    decreases l.len(),
{
    if l.len() == 0 {
        Seq::empty()
    } else if safe(p, l.last()) {
        shares(p, l.drop_last(), depth).push((l.last(), share(p, l.last(), depth)))
    } else {
        shares(p, l.drop_last(), depth)
    }
}

/// The sum of the shares.
pub open spec fn total_share(s: Seq<(Move, nat)>) -> nat
    decreases s.len(),
{
    if s.len() == 0 {
        0
    } else {
        total_share(s.drop_last()) + s.last().1
    }
}

/// One more move of the list adds its share, if it is safe.
proof fn share_step(p: Position, l: Seq<Move>, n: int, depth: u32)
    requires
        0 <= n < l.len(),
    ensures
        safe(p, l[n]) ==> shares(p, l.take(n + 1), depth) == shares(p, l.take(n), depth).push(
            (l[n], share(p, l[n], depth)),
        ) && total_share(shares(p, l.take(n + 1), depth)) == total_share(
            shares(p, l.take(n), depth),
        ) + share(p, l[n], depth),
        !safe(p, l[n]) ==> shares(p, l.take(n + 1), depth) == shares(p, l.take(n), depth),
{
    let a = l.take(n + 1);
    assert(a.drop_last() =~= l.take(n));
    let s = shares(p, l.take(n), depth);
    assert(s.push((l[n], share(p, l[n], depth))).drop_last() =~= s);
}

/// The moves with their shares as counters show them.
pub open spec fn shown_shares(s: Seq<(Move, nat)>) -> Seq<(Move, u64)> {
    Seq::new(s.len(), |i: int| (s[i].0, shown(s[i].1)))
}

/// The share of a move, if it is safe.
fn share_of(pos: &mut Position, mv: Move, depth: u32) -> (r: Option<u64>)
    requires
        playable(*old(pos)),
        pseudo_legal(*old(pos), mv),
        old(pos).clock_room(depth as int),
        old(pos).clock_room(1),
    ensures
        *final(pos) == *old(pos),
        match r {
            Some(n) => safe(*old(pos), mv) && n == shown(share(*old(pos), mv, depth)),
            None => !safe(*old(pos), mv),
        },
{
    let ghost p = *pos;
    proof {
        sound_facts(p);
        pseudo_legal_fits(p, mv);
    }
    let undo: UndoInfo = pos.make_move(mv);
    proof {
        move_keeps_sound(p, mv, *pos, undo);
            sound_facts(*pos);
    }
    let r: Option<u64> = if mover_is_safe(pos) {
        if depth <= 1 {
            assert(shown(1) == 1);
            Some(1)
        } else {
            Some(perft(pos, depth - 1))
        }
    } else {
        None
    };
    pos.unmake_move(mv, undo);
    r
}

/// Counts the leaves below each legal move, and in all.
pub fn perft_divide(pos: &mut Position, depth: u32) -> (r: (Vec<(Move, u64)>, u64))
    requires
        playable(*old(pos)),
        old(pos).clock_room(depth as int),
        old(pos).clock_room(1),
    ensures
        *final(pos) == *old(pos),
        r.0@ == shown_shares(shares(*old(pos), all_moves(*old(pos)), depth)),
        r.1 == shown(total_share(shares(*old(pos), all_moves(*old(pos)), depth))),
{
    let mut list: MoveList = MoveList::new();
    proof {
        sound_facts(*pos);
    }
    generate_all(pos, &mut list);
    assert(list@ =~= all_moves(*pos));
    let mut total: u64 = 0;
    let mut out: Vec<(Move, u64)> = Vec::new();
    let mut i: usize = 0;
    assert(out@ =~= shown_shares(shares(*pos, list@.take(0), depth)));
    while i < list.len
        invariant
            i <= list@.len(),
            list.wf(),
            *pos == *old(pos),
            playable(*pos),
            pos.clock_room(depth as int),
            pos.clock_room(1),
            list@ == all_moves(*pos),
            out@ == shown_shares(shares(*pos, list@.take(i as int), depth)),
            total == shown(total_share(shares(*pos, list@.take(i as int), depth))),
        decreases list@.len() - i,
    {
        let mv: Move = list.moves[i];
        let ghost p = *pos;
        proof {
            assert(list@.contains(mv));
            sound_facts(p);
            all_moves_are_pseudo_legal(p, mv);
            share_step(p, list@, i as int, depth);
            shown_sum(total_share(shares(p, list@.take(i as int), depth)), share(p, mv, depth));
        }
        match share_of(pos, mv, depth) {
            Some(nodes) => {
                out.push((mv, nodes));
                total = total.wrapping_add(nodes);
                assert(out@ =~= shown_shares(shares(p, list@.take(i + 1), depth)));
            },
            None => {},
        }
        i = i + 1;
    }
    assert(list@.take(i as int) =~= list@);
    (out, total)
}

/// The first depth, counted from 1, at which the leaf count is not the expected
/// one, and the count there.
pub fn first_mismatch(pos: &mut Position, expected: &Vec<u64>) -> (r: Option<(u32, u64)>)
    requires
        playable(*old(pos)),
        expected@.len() <= 1000,
        old(pos).clock_room(expected@.len() as int),
    ensures
        *final(pos) == *old(pos),
        match r {
            None => forall|d: nat|
                1 <= d <= expected@.len() ==> shown(#[trigger] leaves(*old(pos), d)) == expected@[d
                    - 1],
            Some((k, n)) => {
                &&& 1 <= k <= expected@.len()
                &&& n == shown(leaves(*old(pos), k as nat))
                &&& n != expected@[k - 1]
                &&& forall|d: nat|
                    1 <= d < k ==> shown(#[trigger] leaves(*old(pos), d)) == expected@[d - 1]
            },
        },
{
    let mut i: usize = 0;
    while i < expected.len()
        invariant
            i <= expected@.len() <= 1000,
            *pos == *old(pos),
            playable(*pos),
            pos.clock_room(expected@.len() as int),
            forall|d: nat| 1 <= d <= i ==> shown(#[trigger] leaves(*pos, d)) == expected@[d - 1],
        decreases expected@.len() - i,
    {
        let depth: u32 = i as u32 + 1;
        let n: u64 = perft(pos, depth);
        if n != expected[i] {
            return Some((depth, n));
        }
        i = i + 1;
    }
    None
}

} // verus!
