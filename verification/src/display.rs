//! A position as a diagram.

use crate::board::{codes_bounded, Position};
use crate::fen::fen_text;
use crate::text::push_text;
use crate::types::{piece_char, piece_letter};
use vstd::prelude::*;

verus! {

/// The files from `f` on of a rank, each square followed by a space.
pub open spec fn rank_row(m: Seq<u8>, r: int, f: int) -> Seq<char>
    decreases 8 - f,
{
    if f >= 8 {
        Seq::empty()
    } else {
        seq![piece_letter(m[r * 8 + f] as int), ' '] + rank_row(m, r, f + 1)
    }
}

/// The ranks from `r` down, a line each.
pub open spec fn board_rows(m: Seq<u8>, r: int) -> Seq<char>
    decreases r + 1,
{
    if r < 0 {
        Seq::empty()
    } else {
        seq![' ', ' ', (49 + r) as char, ' '] + rank_row(m, r, 0) + seq!['\n'] + board_rows(m, r - 1)
    }
}

/// The character of a digit to base sixteen.
pub open spec fn hex_digit(d: int) -> char {
    if d < 10 {
        (48 + d) as char
    } else {
        (87 + d) as char
    }
}

/// The `n` lowest digits of a number to base sixteen.
pub open spec fn hex(v: nat, n: nat) -> Seq<char>
    decreases n,
{
    if n == 0 {
        Seq::empty()
    } else {
        hex(v / 16, (n - 1) as nat).push(hex_digit((v % 16) as int))
    }
}

/// The diagram of a position, with its FEN and its hash.
pub open spec fn diagram(p: Position) -> Seq<char> {
    seq!['\n'] + board_rows(p.mailbox@, 7) + "    a b c d e f g h\n  FEN: "@ + fen_text(p)
        + "\n  Hash: "@ + hex(p.hash as nat, 16) + seq!['\n', '\n']
}

fn push_hex(out: &mut String, v: u64, n: u32)
    ensures
        final(out)@ == old(out)@ + hex(v as nat, n as nat),
    decreases n,
{
    if n > 0 {
        push_hex(out, v / 16, n - 1);
        let d: u8 = (v % 16) as u8;
        let c: u8 = if d < 10 {
            48 + d
        } else {
            87 + d
        };
        out.push(c as char);
    }
    assert(out@ =~= old(out)@ + hex(v as nat, n as nat));
}

impl Position {
    fn push_row(&self, out: &mut String, r: u8)
        requires
            r < 8,
            self.wf_boards(),
        ensures
            final(out)@ == old(out)@ + rank_row(self.mailbox@, r as int, 0),
    {
        proof {
            codes_bounded(*self);
        }
        let ghost goal = old(out)@ + rank_row(self.mailbox@, r as int, 0);
        let mut f: u8 = 0;
        while f < 8
            invariant
                f <= 8,
                r < 8,
                forall|s: int| 0 <= s < 64 ==> #[trigger] self.mailbox@[s] <= 12,
                out@ + rank_row(self.mailbox@, r as int, f as int) == goal,
            decreases 8 - f,
        {
            let ghost before = out@;
            let code: u8 = self.mailbox[(r * 8 + f) as usize];
            assert(self.mailbox@[r * 8 + f] <= 12);
            out.push(piece_char(code));
            out.push(' ');
            assert(out@ + rank_row(self.mailbox@, r as int, f + 1) =~= before + rank_row(
                self.mailbox@,
                r as int,
                f as int,
            ));
            f = f + 1;
        }
        assert(out@ =~= goal);
    }

    /// The diagram of a position, with its FEN and its hash.
    pub fn to_diagram(&self) -> (t: String)
        requires
            self.wf_boards(),
            self.ep_square <= 64,
        ensures
            t@ == diagram(*self),
    {
        let mut t: String = String::new();
        t.push('\n');
        let mut r: u8 = 8;
        let ghost m = self.mailbox@;
        assert(t@ + board_rows(m, 7) =~= seq!['\n'] + board_rows(m, 7));
        while r > 0
            invariant
                r <= 8,
                self.wf_boards(),
                m == self.mailbox@,
                t@ + board_rows(m, r - 1) == seq!['\n'] + board_rows(m, 7),
            decreases r,
        {
            let ghost before = t@;
            t.push(' ');
            t.push(' ');
            let c: u8 = 48 + r;
            t.push(c as char);
            t.push(' ');
            self.push_row(&mut t, r - 1);
            t.push('\n');
            assert(t@ + board_rows(m, r - 2) =~= before + board_rows(m, r - 1));
            r = r - 1;
        }
        push_text(&mut t, "    a b c d e f g h\n  FEN: ");
        push_text(&mut t, self.to_fen().as_str());
        push_text(&mut t, "\n  Hash: ");
        push_hex(&mut t, self.hash, 16);
        t.push('\n');
        t.push('\n');
        assert(t@ =~= diagram(*self));
        t
    }
}

} // verus!
