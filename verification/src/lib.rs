//! A reverse-Polish hexadecimal calculator on unsigned 64-bit integers.
//!
//! The crate holds the calculator's core: the value stack, the command
//! interpreter that maps one token to one effect on the stack, and the
//! arithmetic behind the operators. Every executable function carries a
//! contract over a mathematical model of the stack (`Seq<u64>`, bottom
//! first), and the contracts are proved with Verus.
//!
//! Reading input, writing output and ending the process are left to the
//! program around the library: the library reports conditions as values.

pub mod bits;
pub mod entropy;
pub mod gcd;
pub mod hex;
pub mod interp;
pub mod session;
pub mod stack;
pub mod text;

pub use entropy::{Entropy, FixedSequence, ThreadRandom};
pub use interp::{classify, Binary, Command};
pub use session::{calculate, is_quit, Evaluation, Turn};
pub use stack::{Diagnostic, Entry, Stack, UnderflowPolicy};
