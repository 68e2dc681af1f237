//! The value stack: an ordered sequence of unsigned 64-bit integers, bottom
//! first, with the policy that says what a pop from an empty stack does.

use vstd::prelude::*;
use crate::hex::{hex_len, leading_zero_digits};

verus! {

/// What taking an operand from an empty stack does.
#[derive(Clone, Copy, Debug, PartialEq, Eq, Structural)]
pub enum UnderflowPolicy {
    /// Underflow is an error that ends the evaluation.
    Strict,
    /// Underflow yields zero and the evaluation goes on.
    Lenient,
}

/// A condition that an operation reports to its caller.
#[derive(Clone, Copy, Debug, PartialEq, Eq, Structural)]
pub enum Diagnostic {
    /// An operand was missing under the strict policy.
    Underflow,
    /// The divisor of a division or of a remainder was zero.
    DivisionByZero,
    /// The token is neither an operator nor a hexadecimal literal that fits.
    InvalidInput,
}

impl Diagnostic {
    /// Only underflow ends an evaluation; the other conditions are reported
    /// and the evaluation goes on with the next token.
    pub open spec fn fatal(self) -> bool {
        self is Underflow
    }

    /// Whether this condition ends the evaluation.
    pub fn is_fatal(&self) -> (b: bool)
        ensures
            b == self.fatal(),
    {
        match self {
            Diagnostic::Underflow => true,
            Diagnostic::DivisionByZero => false,
            Diagnostic::InvalidInput => false,
        }
    }

    /// The text shown to the user for each condition.
    pub open spec fn text(self) -> Seq<char> {
        match self {
            Diagnostic::Underflow => "error: stack underflow"@,
            Diagnostic::DivisionByZero => "division by zero"@,
            Diagnostic::InvalidInput => "error: invalid input"@,
        }
    }

    /// The text shown to the user.
    pub fn message(&self) -> (s: &'static str)
        ensures
            s@ == self.text(),
    {
        match self {
            Diagnostic::Underflow => "error: stack underflow",
            Diagnostic::DivisionByZero => "division by zero",
            Diagnostic::InvalidInput => "error: invalid input",
        }
    }
}

/// Whether an operator that takes `n` operands may run on `items`: always
/// under the lenient policy, and under the strict one when `n` values are
/// there.
pub open spec fn admits(items: Seq<u64>, policy: UnderflowPolicy, n: nat) -> bool {
    policy is Lenient || items.len() >= n
}

/// The value `depth` places below the top (`0` is the top itself), and zero
/// where the stack is not that deep.
pub open spec fn operand(items: Seq<u64>, depth: nat) -> u64 {
    if depth < items.len() {
        items[items.len() - 1 - depth]
    } else {
        0
    }
}

/// `items` without its `n` topmost values, or empty where it holds fewer.
pub open spec fn below(items: Seq<u64>, n: nat) -> Seq<u64> {
    if n <= items.len() {
        items.take(items.len() - n)
    } else {
        Seq::empty()
    }
}

/// `items` with its two topmost values exchanged; unchanged where it holds
/// fewer than two.
pub open spec fn swapped(items: Seq<u64>) -> Seq<u64> {
    if items.len() < 2 {
        items
    } else {
        below(items, 2).push(operand(items, 0)).push(operand(items, 1))
    }
}

/// `items` with its bottom value moved to the top; unchanged where it holds
/// fewer than two.
pub open spec fn rotated_up(items: Seq<u64>) -> Seq<u64> {
    if items.len() < 2 {
        items
    } else {
        items.drop_first().push(items.first())
    }
}

/// `items` with its top value moved to the bottom; unchanged where it holds
/// fewer than two.
pub open spec fn rotated_down(items: Seq<u64>) -> Seq<u64> {
    if items.len() < 2 {
        items
    } else {
        seq![items.last()] + items.drop_last()
    }
}

/// What a division does to `items`: the quotient of the value below the top
/// by the top replaces both; with a zero divisor both operands go back and
/// the condition is reported; without two values under the strict policy
/// nothing changes and underflow is reported.
pub open spec fn divided(items: Seq<u64>, policy: UnderflowPolicy) -> (
    Seq<u64>,
    Result<(), Diagnostic>,
) {
    let x = operand(items, 1);
    let y = operand(items, 0);
    if !admits(items, policy, 2) {
        (items, Err(Diagnostic::Underflow))
    } else if y == 0 {
        (below(items, 2).push(x).push(y), Err(Diagnostic::DivisionByZero))
    } else {
        (below(items, 2).push(x / y), Ok(()))
    }
}

/// What a remainder does to `items`: as a division, with the remainder in
/// place of the quotient.
pub open spec fn remaindered(items: Seq<u64>, policy: UnderflowPolicy) -> (
    Seq<u64>,
    Result<(), Diagnostic>,
) {
    let x = operand(items, 1);
    let y = operand(items, 0);
    if !admits(items, policy, 2) {
        (items, Err(Diagnostic::Underflow))
    } else if y == 0 {
        (below(items, 2).push(x).push(y), Err(Diagnostic::DivisionByZero))
    } else {
        (below(items, 2).push(x % y), Ok(()))
    }
}

/// One slot of the stack as a renderer needs it.
#[derive(Clone, Copy, Debug, PartialEq, Eq, Structural)]
pub struct Entry {
    /// How far below the top the slot lies; the top has depth zero.
    pub depth: usize,
    /// The value in the slot.
    pub value: u64,
    /// How many zeros stand in front of the value when it is written in
    /// sixteen hexadecimal digits.
    pub leading_zeros: u32,
}

/// The slot of `items` at `depth`.
pub open spec fn entry_at(items: Seq<u64>, depth: nat) -> Entry {
    Entry {
        depth: depth as usize,
        value: operand(items, depth),
        leading_zeros: (16 - hex_len(operand(items, depth) as nat)) as u32,
    }
}

/// The slots of `items` from the top down.
pub open spec fn entries_of(items: Seq<u64>) -> Seq<Entry> {
    Seq::new(items.len(), |depth: int| entry_at(items, depth as nat))
}

/// The value stack.
#[derive(Debug)]
pub struct Stack {
    items: Vec<u64>,
    policy: UnderflowPolicy,
}

impl View for Stack {
    type V = Seq<u64>;

    /// The values on the stack, bottom first: the last one is the top.
    closed spec fn view(&self) -> Seq<u64> {
        self.items@
    }
}

impl Stack {
    /// The underflow policy that the stack was made with.
    pub closed spec fn spec_policy(&self) -> UnderflowPolicy {
        self.policy
    }

    /// The number of values on the stack.
    pub open spec fn spec_len(&self) -> usize {
        self@.len() as usize
    }

    /// An empty stack under the lenient policy.
    pub fn new() -> (s: Stack)
        ensures
            s@ == Seq::<u64>::empty(),
            s.policy() == UnderflowPolicy::Lenient,
    {
        Stack { items: Vec::new(), policy: UnderflowPolicy::Lenient }
    }

    /// An empty stack under the given policy.
    pub fn with_policy(policy: UnderflowPolicy) -> (s: Stack)
        ensures
            s@ == Seq::<u64>::empty(),
            s.policy() == policy,
    {
        Stack { items: Vec::new(), policy }
    }

    /// The underflow policy of this stack.
    #[verifier::when_used_as_spec(spec_policy)]
    pub fn policy(&self) -> (p: UnderflowPolicy)
        ensures
            p == self.spec_policy(),
    {
        self.policy
    }

    /// The number of values on the stack.
    #[verifier::when_used_as_spec(spec_len)]
    pub fn len(&self) -> (n: usize)
        ensures
            n == self@.len(),
            n == self.spec_len(),
    {
        self.items.len()
    }

    /// Whether the stack holds no value.
    pub fn is_empty(&self) -> (b: bool)
        ensures
            b == (self@.len() == 0),
    {
        self.items.len() == 0
    }

    /// The top value, if there is one; the stack stays as it is.
    pub fn top(&self) -> (v: Option<u64>)
        ensures
            v == if self@.len() > 0 { Some(self@.last()) } else { None },
    {
        let n = self.items.len();
        if n > 0 {
            Some(self.items[n - 1])
        } else {
            None
        }
    }

    /// The values on the stack, bottom first.
    pub fn values(&self) -> (v: Vec<u64>)
        ensures
            v@ == self@,
    {
        let mut v: Vec<u64> = Vec::new();
        let n = self.items.len();
        let mut i: usize = 0;
        while i < n
            invariant
                i <= n,
                n == self.items@.len(),
                v@ == self.items@.take(i as int),
            decreases n - i,
        {
            v.push(self.items[i]);
            i += 1;
        }
        v
    }

    /// The slot at `depth` below the top, if the stack is that deep. Asking
    /// for one depth after another from zero walks the stack from the top
    /// down, and the walk can be taken up again at any depth.
    pub fn entry(&self, depth: usize) -> (e: Option<Entry>)
        ensures
            e == if depth < self@.len() {
                Some(entry_at(self@, depth as nat))
            } else {
                None
            },
    {
        let n = self.items.len();
        if depth < n {
            let value = self.items[n - 1 - depth];
            Some(Entry { depth, value, leading_zeros: leading_zero_digits(value) })
        } else {
            None
        }
    }

    /// All slots from the top down.
    pub fn entries(&self) -> (v: Vec<Entry>)
        ensures
            v@ == entries_of(self@),
    {
        let mut v: Vec<Entry> = Vec::new();
        let n = self.items.len();
        let mut depth: usize = 0;
        while depth < n
            invariant
                depth <= n,
                n == self.items@.len(),
                v@ == entries_of(self@).take(depth as int),
            decreases n - depth,
        {
            let value = self.items[n - 1 - depth];
            v.push(Entry { depth, value, leading_zeros: leading_zero_digits(value) });
            depth += 1;
        }
        v
    }

    /// Puts `x` on top.
    pub fn push(&mut self, x: u64)
        ensures
            final(self)@ == old(self)@.push(x),
            final(self).policy() == old(self).policy(),
    {
        self.items.push(x);
    }

    /// Takes the top value off. On an empty stack nothing changes: the
    /// lenient policy yields zero, the strict one reports underflow.
    pub fn pop(&mut self) -> (r: Result<u64, Diagnostic>)
        ensures
            final(self).policy() == old(self).policy(),
            final(self)@ == below(old(self)@, 1),
            r == if admits(old(self)@, old(self).policy(), 1) {
                Ok::<u64, Diagnostic>(operand(old(self)@, 0))
            } else {
                Err::<u64, Diagnostic>(Diagnostic::Underflow)
            },
    {
        match self.items.pop() {
            Some(x) => Ok(x),
            None => match self.policy {
                UnderflowPolicy::Lenient => Ok(0),
                UnderflowPolicy::Strict => Err(Diagnostic::Underflow),
            },
        }
    }

    /// Exchanges the two topmost values; does nothing where there are fewer
    /// than two.
    pub fn swap_top_two(&mut self)
        ensures
            final(self)@ == swapped(old(self)@),
            final(self).policy() == old(self).policy(),
    {
        let n = self.items.len();
        if n >= 2 {
            let upper = self.items[n - 1];
            let lower = self.items[n - 2];
            self.items.set(n - 1, lower);
            self.items.set(n - 2, upper);
        }
    }

    /// Moves the bottom value to the top; does nothing where there are fewer
    /// than two values.
    pub fn rotate_up(&mut self)
        ensures
            final(self)@ == rotated_up(old(self)@),
            final(self).policy() == old(self).policy(),
    {
        if self.items.len() > 1 {
            let x = self.items.remove(0);
            self.items.push(x);
        }
    }

    /// Moves the top value to the bottom; does nothing where there are fewer
    /// than two values.
    pub fn rotate_down(&mut self)
        ensures
            final(self)@ == rotated_down(old(self)@),
            final(self).policy() == old(self).policy(),
    {
        if self.items.len() > 1 {
            let n = self.items.len();
            let x = self.items[n - 1];
            self.items.pop();
            self.items.insert(0, x);
        }
    }

    /// Replaces the top value `x` by `func(x)`. Under the strict policy an
    /// empty stack is left as it is and underflow is reported; under the
    /// lenient one the missing operand counts as zero.
    pub fn f1<F: Fn(u64) -> u64>(&mut self, func: F) -> (r: Result<(), Diagnostic>)
        requires
            admits(old(self)@, old(self).policy(), 1) ==> call_requires(
                func,
                (operand(old(self)@, 0),),
            ),
        ensures
            final(self).policy() == old(self).policy(),
            !admits(old(self)@, old(self).policy(), 1) ==> {
                &&& r == Err::<(), Diagnostic>(Diagnostic::Underflow)
                &&& final(self)@ == old(self)@
            },
            admits(old(self)@, old(self).policy(), 1) ==> {
                &&& r == Ok::<(), Diagnostic>(())
                &&& final(self)@.len() == below(old(self)@, 1).len() + 1
                &&& final(self)@.drop_last() == below(old(self)@, 1)
                &&& call_ensures(func, (operand(old(self)@, 0),), final(self)@.last())
            },
    {
        let x = match self.pop() {
            Ok(x) => x,
            Err(d) => {
                return Err(d);
            },
        };
        let value = func(x);
        self.push(value);
        Ok(())
    }

    /// Replaces the two topmost values by `func(x, y)`, where `y` is the top
    /// and `x` the value below it. Under the strict policy a stack of fewer
    /// than two values is left as it is and underflow is reported; under the
    /// lenient one each missing operand counts as zero.
    pub fn f2<F: Fn(u64, u64) -> u64>(&mut self, func: F) -> (r: Result<(), Diagnostic>)
        requires
            admits(old(self)@, old(self).policy(), 2) ==> call_requires(
                func,
                (operand(old(self)@, 1), operand(old(self)@, 0)),
            ),
        ensures
            final(self).policy() == old(self).policy(),
            !admits(old(self)@, old(self).policy(), 2) ==> {
                &&& r == Err::<(), Diagnostic>(Diagnostic::Underflow)
                &&& final(self)@ == old(self)@
            },
            admits(old(self)@, old(self).policy(), 2) ==> {
                &&& r == Ok::<(), Diagnostic>(())
                &&& final(self)@.len() == below(old(self)@, 2).len() + 1
                &&& final(self)@.drop_last() == below(old(self)@, 2)
                &&& call_ensures(
                    func,
                    (operand(old(self)@, 1), operand(old(self)@, 0)),
                    final(self)@.last(),
                )
            },
    {
        let (x, y) = match self.take_two() {
            Ok(pair) => pair,
            Err(d) => {
                return Err(d);
            },
        };
        let value = func(x, y);
        self.push(value);
        Ok(())
    }

    /// Takes the two topmost values off and returns them, the lower one
    /// first. Under the strict policy a stack of fewer than two values is
    /// left as it is and underflow is reported; under the lenient one each
    /// missing value counts as zero.
    pub fn take_two(&mut self) -> (r: Result<(u64, u64), Diagnostic>)
        ensures
            final(self).policy() == old(self).policy(),
            !admits(old(self)@, old(self).policy(), 2) ==> {
                &&& r == Err::<(u64, u64), Diagnostic>(Diagnostic::Underflow)
                &&& final(self)@ == old(self)@
            },
            admits(old(self)@, old(self).policy(), 2) ==> {
                &&& r == Ok::<(u64, u64), Diagnostic>(
                    (operand(old(self)@, 1), operand(old(self)@, 0)),
                )
                &&& final(self)@ == below(old(self)@, 2)
            },
    {
        let y = match self.pop() {
            Ok(y) => y,
            Err(d) => {
                return Err(d);
            },
        };
        match self.pop() {
            Ok(x) => Ok((x, y)),
            Err(d) => {
                self.push(y);
                Err(d)
            },
        }
    }

    /// Integer division of the value below the top by the top. A zero divisor
    /// is reported and both operands go back in their order, so that a stack
    /// of two or more values is left as it was.
    pub fn div(&mut self) -> (r: Result<(), Diagnostic>)
        ensures
            final(self).policy() == old(self).policy(),
            (final(self)@, r) == divided(old(self)@, old(self).policy()),
    {
        let (x, y) = match self.take_two() {
            Ok(pair) => pair,
            Err(d) => {
                return Err(d);
            },
        };
        if y != 0 {
            self.push(x / y);
            Ok(())
        } else {
            self.push(x);
            self.push(y);
            Err(Diagnostic::DivisionByZero)
        }
    }

    /// Remainder of the value below the top by the top. A zero divisor is
    /// reported and both operands go back in their order, as for a division.
    pub fn rem(&mut self) -> (r: Result<(), Diagnostic>)
        ensures
            final(self).policy() == old(self).policy(),
            (final(self)@, r) == remaindered(old(self)@, old(self).policy()),
    {
        let (x, y) = match self.take_two() {
            Ok(pair) => pair,
            Err(d) => {
                return Err(d);
            },
        };
        if y != 0 {
            self.push(x % y);
            Ok(())
        } else {
            self.push(x);
            self.push(y);
            Err(Diagnostic::DivisionByZero)
        }
    }

    /// Empties the stack.
    pub fn clear(&mut self)
        ensures
            final(self)@ == Seq::<u64>::empty(),
            final(self).policy() == old(self).policy(),
    {
        self.items.clear();
    }
}

} // verus!
