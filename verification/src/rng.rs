//! The random numbers of self-play: xoshiro256**, seeded by splitmix64.

use vstd::prelude::*;

verus! {

/// The product of two numbers, as far as it fits in 64 bits.
pub open spec fn times(a: u64, b: u64) -> u64 {
    ((a * b) % 0x1_0000_0000_0000_0000) as u64
}

/// The sum of two numbers, as far as it fits in 64 bits.
pub open spec fn plus(a: u64, b: u64) -> u64 {
    ((a + b) % 0x1_0000_0000_0000_0000) as u64
}

/// The bits of a number, moved left around its ends.
pub open spec fn rotated(x: u64, k: u64) -> u64 {
    (x << k) | (x >> ((64 - k) as u64))
}

/// The state after one step of the seeding.
pub open spec fn seeded(z: u64) -> u64 {
    let a = plus(z, 0x9e3779b97f4a7c15);
    let b = times(a ^ (a >> 30), 0xbf58476d1ce4e5b9);
    times(b ^ (b >> 27), 0x94d049bb133111eb)
}

/// The number that a step of the seeding gives.
pub open spec fn seed_word(z: u64) -> u64 {
    z ^ (z >> 31)
}

/// A generator of random numbers.
#[derive(Clone, Copy, PartialEq, Eq, Structural, Debug)]
pub struct Rng {
    pub a: u64,
    pub b: u64,
    pub c: u64,
    pub d: u64,
}

/// The number that a state gives.
pub open spec fn drawn(r: Rng) -> u64 {
    times(rotated(times(r.b, 5), 7), 9)
}

/// The state after a number has been drawn.
pub open spec fn stepped(r: Rng) -> Rng {
    let c = r.c ^ r.a;
    let d = r.d ^ r.b;
    Rng { a: r.a ^ d, b: r.b ^ c, c: c ^ (r.b << 17), d: rotated(d, 45) }
}

fn mul_wrapping(a: u64, b: u64) -> (r: u64)
    ensures
        r == times(a, b),
{
    a.wrapping_mul(b)
}

fn add_wrapping(a: u64, b: u64) -> (r: u64)
    ensures
        r == plus(a, b),
{
    a.wrapping_add(b)
}

fn rotate(x: u64, k: u64) -> (r: u64)
    requires
        0 < k < 64,
    ensures
        r == rotated(x, k),
{
    (x << k) | (x >> (64 - k))
}

fn seed_step(z: u64) -> (r: u64)
    ensures
        r == seeded(z),
{
    let a: u64 = add_wrapping(z, 0x9e3779b97f4a7c15);
    let b: u64 = mul_wrapping(a ^ (a >> 30u64), 0xbf58476d1ce4e5b9);
    mul_wrapping(b ^ (b >> 27u64), 0x94d049bb133111eb)
}

impl Rng {
    /// A generator that starts from a seed.
    pub fn new(seed: u64) -> (r: Rng)
        ensures
            ({
                let z1 = seeded(seed);
                let z2 = seeded(z1);
                let z3 = seeded(z2);
                let z4 = seeded(z3);
                r == (Rng {
                    a: seed_word(z1),
                    b: seed_word(z2),
                    c: seed_word(z3),
                    d: seed_word(z4),
                })
            }),
    {
        let z1: u64 = seed_step(seed);
        let z2: u64 = seed_step(z1);
        let z3: u64 = seed_step(z2);
        let z4: u64 = seed_step(z3);
        Rng {
            a: z1 ^ (z1 >> 31u64),
            b: z2 ^ (z2 >> 31u64),
            c: z3 ^ (z3 >> 31u64),
            d: z4 ^ (z4 >> 31u64),
        }
    }

    pub fn next_u64(&mut self) -> (n: u64)
        ensures
            n == drawn(*old(self)),
            *final(self) == stepped(*old(self)),
    {
        let n: u64 = mul_wrapping(rotate(mul_wrapping(self.b, 5), 7), 9);
        let c: u64 = self.c ^ self.a;
        let d: u64 = self.d ^ self.b;
        let t: u64 = self.b << 17u64;
        *self = Rng { a: self.a ^ d, b: self.b ^ c, c: c ^ t, d: rotate(d, 45) };
        n
    }

    /// A random number below `max`.
    pub fn next_usize(&mut self, max: usize) -> (n: usize)
        requires
            max > 0,
        ensures
            n == drawn(*old(self)) % (max as u64),
            n < max,
            *final(self) == stepped(*old(self)),
    {
        (self.next_u64() % max as u64) as usize
    }
}

/// The seed of a thread's generator: the time, mixed with the thread's number.
pub open spec fn thread_seed_of(nanos: u64, id: u32) -> u64 {
    nanos ^ times((id + 1) as u64, 0x517cc1b727220a95)
}

/// The seed of a thread's generator, so that threads that start together draw
/// different numbers.
pub fn thread_seed(nanos: u64, id: u32) -> (s: u64)
    ensures
        s == thread_seed_of(nanos, id),
{
    nanos ^ mul_wrapping(id as u64 + 1, 0x517cc1b727220a95)
}

} // verus!
