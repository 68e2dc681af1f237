//! The command interpreter: one token, one effect on the stack.

use vstd::prelude::*;
use crate::bits::{rol, ror, rotated_left, rotated_right, shift_left, shift_right, shl, shr};
use crate::entropy::Entropy;
use crate::gcd::{
    gcd, gcd_spec, is_gcd, lemma_gcd_spec_bound, lemma_gcd_spec_is_gcd, lemma_gcd_unique,
};
use crate::hex::{
    all_digits, digit_value, hex_digits, in_lower_case, lemma_hex_len_u64,
    lemma_literal_round_trip, lemma_valued_digits, literal_value, parse_hex_chars, without_sign,
    zeros,
};
use crate::stack::{
    admits, below, divided, entry_at, operand, remaindered, rotated_down, rotated_up, swapped,
    Diagnostic, Stack, UnderflowPolicy,
};
use crate::text::{chars_of, spells};

verus! {

/// An operator that takes two operands and leaves one value.
#[derive(Clone, Copy, Debug, PartialEq, Eq, Structural)]
pub enum Binary {
    /// Sum modulo 2 to the power 64.
    Add,
    /// Difference modulo 2 to the power 64.
    Sub,
    /// Product modulo 2 to the power 64.
    Mul,
    /// Bitwise and.
    And,
    /// Bitwise or.
    Or,
    /// Bitwise exclusive or.
    Xor,
    /// Shift to the left.
    Shl,
    /// Shift to the right.
    Shr,
    /// Rotation to the left.
    Rol,
    /// Rotation to the right.
    Ror,
    /// Greatest common divisor.
    Gcd,
}

/// What one token asks for.
#[derive(Clone, Copy, Debug, PartialEq, Eq, Structural)]
pub enum Command {
    /// Replace the two topmost values by the operator's result.
    Binary(Binary),
    /// Divide the value below the top by the top.
    Div,
    /// Take the value below the top modulo the top.
    Rem,
    /// Complement the top bit by bit.
    Not,
    /// Exchange the two topmost values.
    Swap,
    /// Move the bottom value to the top.
    RotateUp,
    /// Move the top value to the bottom.
    RotateDown,
    /// Empty the stack.
    Clear,
    /// Push a random value.
    Rand,
    /// Push the value of a literal.
    Literal(u64),
    /// Nothing: the token is no operator and no literal.
    Invalid,
}

/// `n` modulo 2 to the power 64.
pub open spec fn wrapped(n: int) -> u64 {
    (n % 0x1_0000_0000_0000_0000) as u64
}

impl Binary {
    /// The operator's result on `x`, the value below the top, and `y`, the
    /// top. Sums, differences and products are taken modulo 2 to the power
    /// 64; shift and rotation counts modulo 64.
    pub open spec fn value(self, x: u64, y: u64) -> u64 {
        match self {
            Binary::Add => wrapped(x + y),
            Binary::Sub => wrapped(x - y),
            Binary::Mul => wrapped(x * y),
            Binary::And => x & y,
            Binary::Or => x | y,
            Binary::Xor => x ^ y,
            Binary::Shl => shift_left(x, y),
            Binary::Shr => shift_right(x, y),
            Binary::Rol => rotated_left(x, y),
            Binary::Ror => rotated_right(x, y),
            Binary::Gcd => gcd_spec(x as nat, y as nat) as u64,
        }
    }

    /// Computes the operator's result.
    pub fn apply(self, x: u64, y: u64) -> (r: u64)
        ensures
            r == self.value(x, y),
    {
        match self {
            Binary::Add => x.wrapping_add(y),
            Binary::Sub => x.wrapping_sub(y),
            Binary::Mul => x.wrapping_mul(y),
            Binary::And => x & y,
            Binary::Or => x | y,
            Binary::Xor => x ^ y,
            Binary::Shl => shl(x, y),
            Binary::Shr => shr(x, y),
            Binary::Rol => rol(x, y),
            Binary::Ror => ror(x, y),
            Binary::Gcd => gcd(x, y),
        }
    }
}

/// What a token asks for: one of the operator names, else a hexadecimal
/// literal, else nothing.
pub open spec fn classify_spec(token: Seq<char>) -> Command {
    if token == "+"@ {
        Command::Binary(Binary::Add)
    } else if token == "-"@ {
        Command::Binary(Binary::Sub)
    } else if token == "*"@ {
        Command::Binary(Binary::Mul)
    } else if token == "/"@ {
        Command::Div
    } else if token == "not"@ {
        Command::Not
    } else if token == "and"@ {
        Command::Binary(Binary::And)
    } else if token == "or"@ {
        Command::Binary(Binary::Or)
    } else if token == "xor"@ {
        Command::Binary(Binary::Xor)
    } else if token == "shl"@ {
        Command::Binary(Binary::Shl)
    } else if token == "shr"@ {
        Command::Binary(Binary::Shr)
    } else if token == "rol"@ {
        Command::Binary(Binary::Rol)
    } else if token == "ror"@ {
        Command::Binary(Binary::Ror)
    } else if token == "mod"@ {
        Command::Rem
    } else if token == "gcd"@ {
        Command::Binary(Binary::Gcd)
    } else if token == "swp"@ {
        Command::Swap
    } else if token == "rlu"@ {
        Command::RotateUp
    } else if token == "rld"@ {
        Command::RotateDown
    } else if token == "clr"@ {
        Command::Clear
    } else if token == "rand"@ {
        Command::Rand
    } else {
        match literal_value(token) {
            Some(v) => Command::Literal(v),
            None => Command::Invalid,
        }
    }
}

/// Finds what the characters of a token ask for.
pub fn classify_chars(token: &Vec<char>) -> (command: Command)
    ensures
        command == classify_spec(token@),
{
    if spells(token, "+") {
        Command::Binary(Binary::Add)
    } else if spells(token, "-") {
        Command::Binary(Binary::Sub)
    } else if spells(token, "*") {
        Command::Binary(Binary::Mul)
    } else if spells(token, "/") {
        Command::Div
    } else if spells(token, "not") {
        Command::Not
    } else if spells(token, "and") {
        Command::Binary(Binary::And)
    } else if spells(token, "or") {
        Command::Binary(Binary::Or)
    } else if spells(token, "xor") {
        Command::Binary(Binary::Xor)
    } else if spells(token, "shl") {
        Command::Binary(Binary::Shl)
    } else if spells(token, "shr") {
        Command::Binary(Binary::Shr)
    } else if spells(token, "rol") {
        Command::Binary(Binary::Rol)
    } else if spells(token, "ror") {
        Command::Binary(Binary::Ror)
    } else if spells(token, "mod") {
        Command::Rem
    } else if spells(token, "gcd") {
        Command::Binary(Binary::Gcd)
    } else if spells(token, "swp") {
        Command::Swap
    } else if spells(token, "rlu") {
        Command::RotateUp
    } else if spells(token, "rld") {
        Command::RotateDown
    } else if spells(token, "clr") {
        Command::Clear
    } else if spells(token, "rand") {
        Command::Rand
    } else {
        match parse_hex_chars(token) {
            Some(v) => Command::Literal(v),
            None => Command::Invalid,
        }
    }
}

/// Finds what a token asks for.
pub fn classify(token: &str) -> (command: Command)
    ensures
        command == classify_spec(token@),
{
    let chars = chars_of(token);
    classify_chars(&chars)
}

/// What `command` does to a stack that holds `items` under `policy`, and what
/// it reports; `draw` is the value that the source of random values yields,
/// which only `Command::Rand` looks at.
///
/// An operator that lacks an operand under the strict policy changes nothing
/// and reports underflow; under the lenient policy the missing operand counts
/// as zero.
pub open spec fn step(items: Seq<u64>, policy: UnderflowPolicy, command: Command, draw: u64) -> (
    Seq<u64>,
    Result<(), Diagnostic>,
) {
    match command {
        Command::Binary(op) => if admits(items, policy, 2) {
            (below(items, 2).push(op.value(operand(items, 1), operand(items, 0))), Ok(()))
        } else {
            (items, Err(Diagnostic::Underflow))
        },
        Command::Div => divided(items, policy),
        Command::Rem => remaindered(items, policy),
        Command::Not => if admits(items, policy, 1) {
            (below(items, 1).push(!operand(items, 0)), Ok(()))
        } else {
            (items, Err(Diagnostic::Underflow))
        },
        Command::Swap => (swapped(items), Ok(())),
        Command::RotateUp => (rotated_up(items), Ok(())),
        Command::RotateDown => (rotated_down(items), Ok(())),
        Command::Clear => (Seq::empty(), Ok(())),
        Command::Rand => (items.push(draw), Ok(())),
        Command::Literal(v) => (items.push(v), Ok(())),
        Command::Invalid => (items, Err(Diagnostic::InvalidInput)),
    }
}

impl Stack {
    /// Carries out `command`. A random value, where the command asks for
    /// one, is drawn from `entropy`, which is otherwise left alone.
    pub fn execute<R: Entropy>(&mut self, command: Command, entropy: &mut R) -> (r: Result<
        (),
        Diagnostic,
    >)
        ensures
            final(self).policy() == old(self).policy(),
            exists|draw: u64|
                {
                    &&& command is Rand ==> old(entropy).may_yield(draw, final(entropy))
                    &&& (final(self)@, r) == #[trigger] step(
                        old(self)@,
                        old(self).policy(),
                        command,
                        draw,
                    )
                },
            !(command is Rand) ==> *final(entropy) == *old(entropy),
    {
        let ghost before = self@;
        let ghost policy = self.policy();
        let r = match command {
            Command::Binary(op) => {
                let operator = |x: u64, y: u64| -> (r: u64)
                    ensures
                        r == op.value(x, y),
                    {
                        op.apply(x, y)
                    };
                self.f2(operator)
            },
            Command::Div => self.div(),
            Command::Rem => self.rem(),
            Command::Not => {
                let complement = |x: u64| -> (r: u64)
                    ensures
                        r == !x,
                    {
                        !x
                    };
                self.f1(complement)
            },
            Command::Swap => {
                self.swap_top_two();
                Ok(())
            },
            Command::RotateUp => {
                self.rotate_up();
                Ok(())
            },
            Command::RotateDown => {
                self.rotate_down();
                Ok(())
            },
            Command::Clear => {
                self.clear();
                Ok(())
            },
            Command::Rand => {
                let value = entropy.next_u64();
                self.push(value);
                assert((self@, Ok::<(), Diagnostic>(())) == step(before, policy, command, value));
                Ok(())
            },
            Command::Literal(v) => {
                self.push(v);
                Ok(())
            },
            Command::Invalid => Err(Diagnostic::InvalidInput),
        };
        proof {
            if !(command is Rand) {
                assert((self@, r) == step(before, policy, command, 0));
            }
        }
        r
    }

    /// Interprets one token: an operator name is carried out, a hexadecimal
    /// literal is pushed, and anything else is reported as invalid input and
    /// changes nothing.
    pub fn cmd<R: Entropy>(&mut self, token: &str, entropy: &mut R) -> (r: Result<(), Diagnostic>)
        ensures
            final(self).policy() == old(self).policy(),
            exists|draw: u64|
                {
                    &&& classify_spec(token@) is Rand ==> old(entropy).may_yield(draw, final(entropy))
                    &&& (final(self)@, r) == #[trigger] step(
                        old(self)@,
                        old(self).policy(),
                        classify_spec(token@),
                        draw,
                    )
                },
            !(classify_spec(token@) is Rand) ==> *final(entropy) == *old(entropy),
    {
        let command = classify(token);
        self.execute(command, entropy)
    }
}

/// Each operator name is read as its operator: no name is taken for
/// another, and none for a literal.
pub proof fn lemma_operator_names()
    ensures
        classify_spec("+"@) == Command::Binary(Binary::Add),
        classify_spec("-"@) == Command::Binary(Binary::Sub),
        classify_spec("*"@) == Command::Binary(Binary::Mul),
        classify_spec("/"@) == Command::Div,
        classify_spec("not"@) == Command::Not,
        classify_spec("and"@) == Command::Binary(Binary::And),
        classify_spec("or"@) == Command::Binary(Binary::Or),
        classify_spec("xor"@) == Command::Binary(Binary::Xor),
        classify_spec("shl"@) == Command::Binary(Binary::Shl),
        classify_spec("shr"@) == Command::Binary(Binary::Shr),
        classify_spec("rol"@) == Command::Binary(Binary::Rol),
        classify_spec("ror"@) == Command::Binary(Binary::Ror),
        classify_spec("mod"@) == Command::Rem,
        classify_spec("gcd"@) == Command::Binary(Binary::Gcd),
        classify_spec("swp"@) == Command::Swap,
        classify_spec("rlu"@) == Command::RotateUp,
        classify_spec("rld"@) == Command::RotateDown,
        classify_spec("clr"@) == Command::Clear,
        classify_spec("rand"@) == Command::Rand,
{
    reveal_strlit("+");
    assert("+"@[0] == '+');
    reveal_strlit("-");
    assert("-"@[0] == '-');
    reveal_strlit("*");
    assert("*"@[0] == '*');
    reveal_strlit("/");
    assert("/"@[0] == '/');
    reveal_strlit("not");
    assert("not"@[0] == 'n' && "not"@[1] == 'o' && "not"@[2] == 't');
    reveal_strlit("and");
    assert("and"@[0] == 'a' && "and"@[1] == 'n' && "and"@[2] == 'd');
    reveal_strlit("or");
    assert("or"@[0] == 'o' && "or"@[1] == 'r');
    reveal_strlit("xor");
    assert("xor"@[0] == 'x' && "xor"@[1] == 'o' && "xor"@[2] == 'r');
    reveal_strlit("shl");
    assert("shl"@[0] == 's' && "shl"@[1] == 'h' && "shl"@[2] == 'l');
    reveal_strlit("shr");
    assert("shr"@[0] == 's' && "shr"@[1] == 'h' && "shr"@[2] == 'r');
    reveal_strlit("rol");
    assert("rol"@[0] == 'r' && "rol"@[1] == 'o' && "rol"@[2] == 'l');
    reveal_strlit("ror");
    assert("ror"@[0] == 'r' && "ror"@[1] == 'o' && "ror"@[2] == 'r');
    reveal_strlit("mod");
    assert("mod"@[0] == 'm' && "mod"@[1] == 'o' && "mod"@[2] == 'd');
    reveal_strlit("gcd");
    assert("gcd"@[0] == 'g' && "gcd"@[1] == 'c' && "gcd"@[2] == 'd');
    reveal_strlit("swp");
    assert("swp"@[0] == 's' && "swp"@[1] == 'w' && "swp"@[2] == 'p');
    reveal_strlit("rlu");
    assert("rlu"@[0] == 'r' && "rlu"@[1] == 'l' && "rlu"@[2] == 'u');
    reveal_strlit("rld");
    assert("rld"@[0] == 'r' && "rld"@[1] == 'l' && "rld"@[2] == 'd');
    reveal_strlit("clr");
    assert("clr"@[0] == 'c' && "clr"@[1] == 'l' && "clr"@[2] == 'r');
    reveal_strlit("rand");
    assert("rand"@[0] == 'r' && "rand"@[1] == 'a' && "rand"@[2] == 'n' && "rand"@[3] == 'd');
}

/// With `a` pushed and then `b`, the tokens `+`, `-` and `*` leave
/// `a.wrapping_add(b)`, `a.wrapping_sub(b)` and `a.wrapping_mul(b)` on top of
/// what was there before: the value pushed first is the left operand.
pub proof fn lemma_arithmetic_wraps(items: Seq<u64>, policy: UnderflowPolicy, a: u64, b: u64, draw: u64)
    ensures
        step(items.push(a).push(b), policy, classify_spec("+"@), draw) == (
            items.push(a.wrapping_add(b)),
            Ok::<(), Diagnostic>(()),
        ),
        step(items.push(a).push(b), policy, classify_spec("-"@), draw) == (
            items.push(a.wrapping_sub(b)),
            Ok::<(), Diagnostic>(()),
        ),
        step(items.push(a).push(b), policy, classify_spec("*"@), draw) == (
            items.push(a.wrapping_mul(b)),
            Ok::<(), Diagnostic>(()),
        ),
{
    lemma_operator_names();
}

/// With `a` pushed and then zero, the token `/` reports a division by zero
/// and leaves the stack as it was, `a` and the zero included.
pub proof fn lemma_division_by_zero_restores(
    items: Seq<u64>,
    policy: UnderflowPolicy,
    a: u64,
    draw: u64,
)
    ensures
        step(items.push(a).push(0), policy, classify_spec("/"@), draw) == (
            items.push(a).push(0),
            Err::<(), Diagnostic>(Diagnostic::DivisionByZero),
        ),
{
    lemma_operator_names();
}

/// With `a` pushed and then `b`, the token `gcd` leaves their greatest common
/// divisor on top of what was there before: the one number that divides both
/// and that every common divisor divides. The greatest common divisor of any
/// `a` and zero is `a`.
pub proof fn lemma_gcd_token(items: Seq<u64>, policy: UnderflowPolicy, a: u64, b: u64, draw: u64)
    ensures
        step(items.push(a).push(b), policy, classify_spec("gcd"@), draw) == (
            items.push(gcd_spec(a as nat, b as nat) as u64),
            Ok::<(), Diagnostic>(()),
        ),
        is_gcd(a as nat, b as nat, gcd_spec(a as nat, b as nat)),
        forall|g: nat| #[trigger] is_gcd(a as nat, b as nat, g) ==> g == gcd_spec(a as nat, b as nat),
        gcd_spec(a as nat, b as nat) <= u64::MAX,
        gcd_spec(a as nat, 0) == a,
{
    lemma_operator_names();
    lemma_gcd_spec_is_gcd(a as nat, b as nat);
    lemma_gcd_spec_bound(a as nat, b as nat);
    assert forall|g: nat| #[trigger] is_gcd(a as nat, b as nat, g) implies g == gcd_spec(
        a as nat,
        b as nat,
    ) by {
        lemma_gcd_unique(a as nat, b as nat, g, gcd_spec(a as nat, b as nat));
    }
}

/// On any stack, `rlu` and then `rld` leave the stack in its first order, and
/// so do `rld` and then `rlu`.
pub proof fn lemma_rotations_are_inverse(items: Seq<u64>, policy: UnderflowPolicy, draw: u64)
    ensures
        step(
            step(items, policy, classify_spec("rlu"@), draw).0,
            policy,
            classify_spec("rld"@),
            draw,
        ) == (items, Ok::<(), Diagnostic>(())),
        step(
            step(items, policy, classify_spec("rld"@), draw).0,
            policy,
            classify_spec("rlu"@),
            draw,
        ) == (items, Ok::<(), Diagnostic>(())),
        rotated_down(rotated_up(items)) == items,
        rotated_up(rotated_down(items)) == items,
{
    lemma_operator_names();
}

/// On an empty stack the token `+` leaves a single zero under the lenient
/// policy; under the strict policy it reports underflow and leaves the stack
/// empty.
pub proof fn lemma_underflow_on_empty_stack(draw: u64)
    ensures
        step(Seq::empty(), UnderflowPolicy::Lenient, classify_spec("+"@), draw) == (
            seq![0u64],
            Ok::<(), Diagnostic>(()),
        ),
        step(Seq::empty(), UnderflowPolicy::Strict, classify_spec("+"@), draw) == (
            Seq::<u64>::empty(),
            Err::<(), Diagnostic>(Diagnostic::Underflow),
        ),
{
    lemma_operator_names();
}

/// On a stack of fewer than two values the token `swp` changes nothing and
/// reports nothing; on any stack two of them in a row change nothing.
pub proof fn lemma_swap(items: Seq<u64>, policy: UnderflowPolicy, draw: u64)
    ensures
        items.len() < 2 ==> step(items, policy, classify_spec("swp"@), draw) == (
            items,
            Ok::<(), Diagnostic>(()),
        ),
        swapped(swapped(items)) == items,
{
    lemma_operator_names();
}

/// A literal differs from any word that does not begin with a plus sign and
/// holds a character that is no hexadecimal digit.
proof fn lemma_digits_differ(token: Seq<char>, word: Seq<char>, at: int)
    requires
        literal_value(token) is Some,
        0 <= at < word.len(),
        word[0] != '+',
        digit_value(word[at]) is None,
    ensures
        token != word,
{
    lemma_valued_digits(without_sign(token));
    if token == word {
        assert(digit_value(without_sign(token)[at]) is Some);
    }
}

/// Whatever has the value of a literal is read as that literal: no operator
/// name is a sign and digits.
pub proof fn lemma_literals_are_no_operators(token: Seq<char>)
    requires
        literal_value(token) is Some,
    ensures
        classify_spec(token) == Command::Literal(literal_value(token)->0),
{
    assert(token != "+"@) by {
        reveal_strlit("+");
        if token == "+"@ {
            assert(without_sign(token).len() == 0);
        }
    }
    reveal_strlit("-");
    lemma_digits_differ(token, "-"@, 0);
    reveal_strlit("*");
    lemma_digits_differ(token, "*"@, 0);
    reveal_strlit("/");
    lemma_digits_differ(token, "/"@, 0);
    reveal_strlit("not");
    lemma_digits_differ(token, "not"@, 0);
    reveal_strlit("and");
    lemma_digits_differ(token, "and"@, 1);
    reveal_strlit("or");
    lemma_digits_differ(token, "or"@, 0);
    reveal_strlit("xor");
    lemma_digits_differ(token, "xor"@, 0);
    reveal_strlit("shl");
    lemma_digits_differ(token, "shl"@, 0);
    reveal_strlit("shr");
    lemma_digits_differ(token, "shr"@, 0);
    reveal_strlit("rol");
    lemma_digits_differ(token, "rol"@, 0);
    reveal_strlit("ror");
    lemma_digits_differ(token, "ror"@, 0);
    reveal_strlit("mod");
    lemma_digits_differ(token, "mod"@, 0);
    reveal_strlit("gcd");
    lemma_digits_differ(token, "gcd"@, 0);
    reveal_strlit("swp");
    lemma_digits_differ(token, "swp"@, 0);
    reveal_strlit("rlu");
    lemma_digits_differ(token, "rlu"@, 0);
    reveal_strlit("rld");
    lemma_digits_differ(token, "rld"@, 0);
    reveal_strlit("clr");
    lemma_digits_differ(token, "clr"@, 1);
    reveal_strlit("rand");
    lemma_digits_differ(token, "rand"@, 0);
}

/// A token of one to sixteen hexadecimal digits, with or without a plus sign
/// in front, pushes its value, and the slot that then lies on top renders as
/// the token's own digits: the leading zeros that the slot counts, followed
/// by the significant digits of its value, are the token's digits in lower
/// case filled with zeros to sixteen places.
pub proof fn lemma_literal_round_trip_on_stack(
    items: Seq<u64>,
    policy: UnderflowPolicy,
    token: Seq<char>,
    draw: u64,
)
    requires
        1 <= without_sign(token).len() <= 16,
        all_digits(without_sign(token)),
    ensures
        literal_value(token) is Some,
        step(items, policy, classify_spec(token), draw) == (
            items.push(literal_value(token)->0),
            Ok::<(), Diagnostic>(()),
        ),
        entry_at(items.push(literal_value(token)->0), 0).value == literal_value(token)->0,
        zeros(entry_at(items.push(literal_value(token)->0), 0).leading_zeros as nat) + hex_digits(
            entry_at(items.push(literal_value(token)->0), 0).value as nat,
        ) == zeros((16 - without_sign(token).len()) as nat) + in_lower_case(without_sign(token)),
{
    lemma_literal_round_trip(token);
    lemma_literals_are_no_operators(token);
    lemma_hex_len_u64(literal_value(token)->0);
}

} // verus!
