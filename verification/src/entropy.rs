//! Where the random values of the calculator come from.
//!
//! The interpreter never reaches for a generator of its own: whoever runs it
//! hands it a source. A session takes the thread's generator; a test takes a
//! fixed sequence.

use vstd::prelude::*;

verus! {

/// A source of 64-bit values.
pub trait Entropy {
    /// Whether the next draw may return `value` and leave the source as
    /// `next`. A source that nothing is known of allows every value and
    /// every state after it, and that is what a source says unless it says
    /// otherwise; a scripted one allows exactly one of each.
    open spec fn may_yield(&self, value: u64, next: &Self) -> bool {
        true
    }

    /// Draws the next value.
    fn next_u64(&mut self) -> (value: u64)
        ensures
            old(self).may_yield(value, final(self)),
    ;
}

/// `rand::rngs::ThreadRng`, the handle to a thread's generator. Nothing of
/// what it holds is visible here.
#[verifier::external_type_specification]
#[verifier::external_body]
pub struct ExThreadRng(rand::rngs::ThreadRng);

/// `rand::thread_rng`: a handle to the calling thread's generator, which the
/// operating system seeds. Nothing is claimed of the handle. The call panics
/// if the operating system cannot supply a seed.
pub assume_specification[ rand::thread_rng ]() -> (rng: rand::rngs::ThreadRng);

/// `rand::Rng::gen` at `u64`, on the thread's generator: the generator's next
/// 64 bits. Nothing is claimed of the value: it may be any `u64`, and two
/// draws may differ. The call panics if the generator is due to reseed (after
/// 64 KiB of output, and after a fork of the process) and the operating
/// system cannot supply the entropy.
#[verifier::external_body]
fn draw(rng: &mut rand::rngs::ThreadRng) -> (value: u64) {
    rand::Rng::gen(rng)
}

/// The thread's random number generator.
#[derive(Debug)]
pub struct ThreadRandom {
    rng: rand::rngs::ThreadRng,
}

impl ThreadRandom {
    /// A handle to the generator of the calling thread.
    pub fn new() -> (source: ThreadRandom) {
        ThreadRandom { rng: rand::thread_rng() }
    }
}

impl Entropy for ThreadRandom {
    fn next_u64(&mut self) -> (value: u64) {
        draw(&mut self.rng)
    }
}

/// A source that yields a given sequence of values over and over; an empty
/// sequence yields zeros.
#[derive(Debug)]
pub struct FixedSequence {
    values: Vec<u64>,
    position: usize,
}

impl FixedSequence {
    /// The sequence that the source repeats.
    pub closed spec fn values(&self) -> Seq<u64> {
        self.values@
    }

    /// How many values of the current round have been drawn.
    pub closed spec fn position(&self) -> nat {
        self.position as nat
    }

    /// The value that the next draw returns.
    pub open spec fn upcoming(&self) -> u64 {
        if self.position() < self.values().len() {
            self.values()[self.position() as int]
        } else {
            0
        }
    }

    /// The position after the next draw: one further, and back at the start
    /// once the sequence is through.
    pub open spec fn following(&self) -> nat {
        if self.position() + 1 < self.values().len() {
            self.position() + 1
        } else {
            0
        }
    }

    /// A source that starts at the first of `values`.
    pub fn new(values: Vec<u64>) -> (source: FixedSequence)
        ensures
            source.values() == values@,
            source.position() == 0,
    {
        FixedSequence { values, position: 0 }
    }
}

impl Entropy for FixedSequence {
    /// Exactly the upcoming value may come, and it moves the position on.
    open spec fn may_yield(&self, value: u64, next: &Self) -> bool {
        &&& value == self.upcoming()
        &&& next.values() == self.values()
        &&& next.position() == self.following()
    }

    fn next_u64(&mut self) -> (value: u64) {
        let n = self.values.len();
        let value = if self.position < n {
            self.values[self.position]
        } else {
            0
        };
        self.position = if self.position < n && self.position + 1 < n {
            self.position + 1
        } else {
            0
        };
        value
    }
}

} // verus!
