//! Zobrist keys: a fixed pseudo-random sequence of 64-bit numbers.

use crate::keys::key;
use crate::types::{CastlingRights, Color, PieceType, Square};
use vstd::prelude::*;

verus! {

/// The state from which the key sequence starts.
pub const SEED: u64 = 0x2E8B57A1C3D4F6E9;

/// How many keys there are: 768 for the pieces, 16 for the castling rights,
/// 8 for the en passant files, 1 for the side to move.
pub const NUM_KEYS: usize = 793;

/// One step of the xorshift generator.
pub open spec fn xorshift(x: u64) -> u64 {
    let a = x ^ (x << 13);
    let b = a ^ (a >> 7);
    b ^ (b << 17)
}

/// The `n`-th key of the sequence.
#[verifier::opaque]
pub open spec fn key_at(n: nat) -> u64
    decreases n,
{
    if n == 0 {
        xorshift(SEED)
    } else {
        xorshift(key_at((n - 1) as nat))
    }
}

/// The key of a piece code on a square; an empty square has the key 0.
pub open spec fn piece_square_key(p: int, s: int) -> u64 {
    if 0 <= p < 12 && 0 <= s < 64 {
        key_at((p * 64 + s) as nat)
    } else {
        0
    }
}

/// The key of a set of castling rights.
pub open spec fn rights_key(r: int) -> u64 {
    key_at((768 + r) as nat)
}

/// The key of an en passant square; no square has the key 0.
pub open spec fn ep_square_key(s: int) -> u64 {
    if 0 <= s < 64 {
        key_at((784 + s % 8) as nat)
    } else {
        0
    }
}

/// The key of the side to move: 0 for White.
pub open spec fn turn_key(c: Color) -> u64 {
    match c {
        Color::White => 0,
        Color::Black => key_at(792),
    }
}

/// A key that goes into a hash twice goes out again.
pub proof fn key_twice(h: u64, n: nat)
    ensures
        (h ^ key_at(n)) ^ key_at(n) == h,
{
    let k = key_at(n);
    assert((h ^ k) ^ k == h) by (bit_vector);
}

/// The xorshift generator of the key sequence.
pub struct Rng(pub u64);

impl Rng {
    pub fn next(&mut self) -> (r: u64)
        ensures
            final(self).0 == xorshift(old(self).0),
            r == final(self).0,
    {
        self.0 = self.0 ^ (self.0 << 13);
        self.0 = self.0 ^ (self.0 >> 7);
        self.0 = self.0 ^ (self.0 << 17);
        self.0
    }
}

/// Generates the key sequence that the table holds.
pub fn init() -> (keys: Vec<u64>)
    ensures
        keys@.len() == NUM_KEYS,
        forall|i: int| 0 <= i < NUM_KEYS ==> #[trigger] keys@[i] == key_at(i as nat),
{
    let mut rng: Rng = Rng(SEED);
    let mut keys: Vec<u64> = Vec::new();
    while keys.len() < NUM_KEYS
        invariant
            keys@.len() <= NUM_KEYS,
            rng.0 == (if keys@.len() == 0 {
                SEED
            } else {
                key_at((keys@.len() - 1) as nat)
            }),
            forall|i: int| 0 <= i < keys@.len() ==> #[trigger] keys@[i] == key_at(i as nat),
        decreases NUM_KEYS - keys@.len(),
    {
        let k: u64 = rng.next();
        proof {
            reveal(key_at);
        }
        keys.push(k);
    }
    keys
}

pub fn piece_key(color: Color, pt: PieceType, sq: Square) -> (k: u64)
    requires
        pt.num() < 6,
        sq < 64,
    ensures
        k == piece_square_key(crate::types::piece_code(color, pt), sq as int),
{
    key((color.index() * 6 + pt.index()) * 64 + sq as usize)
}

pub fn castling_key(rights: CastlingRights) -> (k: u64)
    requires
        rights.0 < 16,
    ensures
        k == rights_key(rights.0 as int),
{
    key(768 + rights.index())
}

pub fn ep_key(file: u8) -> (k: u64)
    requires
        file < 8,
    ensures
        k == key_at((784 + file) as nat),
{
    key(784 + file as usize)
}

pub fn side_key() -> (k: u64)
    ensures
        k == turn_key(Color::Black),
{
    key(792)
}

} // verus!
