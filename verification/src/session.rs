//! Whole lines of input: a line is cut into the tokens that white space keeps
//! apart, and the tokens are interpreted one after the other, until the line
//! ends or a fatal condition ends the run.

use vstd::prelude::*;
use crate::entropy::Entropy;
use crate::interp::{classify_chars, classify_spec, step};
use crate::stack::{Diagnostic, Stack, UnderflowPolicy};
use crate::text::{chars_of, spells, texts, tokenize, tokens_of, trim, trimmed};

verus! {

/// Whether a run that has reported `reports` has ended: its last report is a
/// fatal one.
pub open spec fn halted(reports: Seq<Diagnostic>) -> bool {
    reports.len() > 0 && reports.last().fatal()
}

/// The stack and the reports after `tokens` have been interpreted in order,
/// from a stack that holds `items` under `policy`. `draws[i]` is the value
/// that the source of random values yields for the token at `i`. Once a
/// fatal condition is reported the remaining tokens are left out.
pub open spec fn run(
    items: Seq<u64>,
    policy: UnderflowPolicy,
    tokens: Seq<Seq<char>>,
    draws: Seq<u64>,
) -> (Seq<u64>, Seq<Diagnostic>)
    decreases tokens.len(),
{
    if tokens.len() == 0 {
        (items, Seq::empty())
    } else {
        let (before, reports) = run(items, policy, tokens.drop_last(), draws);
        if halted(reports) {
            (before, reports)
        } else {
            let (after, outcome) = step(
                before,
                policy,
                classify_spec(tokens.last()),
                draws[tokens.len() - 1],
            );
            match outcome {
                Ok(()) => (after, reports),
                Err(d) => (after, reports.push(d)),
            }
        }
    }
}

/// Whether no token of `tokens` asks for a random value.
pub open spec fn draws_nothing(tokens: Seq<Seq<char>>) -> bool {
    forall|i: int| 0 <= i < tokens.len() ==> !(#[trigger] classify_spec(tokens[i]) is Rand)
}

/// Whether a run of `tokens` comes to the token at `i` and finds it asking
/// for a random value.
pub open spec fn draws_at(
    items: Seq<u64>,
    policy: UnderflowPolicy,
    tokens: Seq<Seq<char>>,
    draws: Seq<u64>,
    i: int,
) -> bool {
    classify_spec(tokens[i]) is Rand && !halted(run(items, policy, tokens.take(i), draws).1)
}

/// Whether `draws` and `sources` tell how a source of random values served a
/// run of `tokens`: `sources[i]` is the source before the token at `i` and
/// `sources[i + 1]` the source after it. Where the token draws, the source
/// allows the draw and the step to its next state; where it does not, the
/// source stays as it is.
pub open spec fn served<R: Entropy>(
    items: Seq<u64>,
    policy: UnderflowPolicy,
    tokens: Seq<Seq<char>>,
    draws: Seq<u64>,
    sources: Seq<R>,
) -> bool {
    &&& draws.len() == tokens.len()
    &&& sources.len() == tokens.len() + 1
    &&& forall|i: int|
        0 <= i < tokens.len() ==> if draws_at(items, policy, tokens, draws, i) {
            (#[trigger] sources[i]).may_yield(draws[i], &sources[i + 1])
        } else {
            sources[i + 1] == sources[i]
        }
}

/// What a run of `tokens` from `items` under `policy` leaves, as a relation:
/// for some draws that `before`, the source of random values, allowed one
/// after the other, the run ends with `after` on the stack, `reports`
/// reported and the source as `behind`.
pub open spec fn runs_to<R: Entropy>(
    items: Seq<u64>,
    policy: UnderflowPolicy,
    tokens: Seq<Seq<char>>,
    before: R,
    after: Seq<u64>,
    reports: Seq<Diagnostic>,
    behind: R,
) -> bool {
    exists|draws: Seq<u64>, sources: Seq<R>|
        {
            &&& #[trigger] served(items, policy, tokens, draws, sources)
            &&& sources.first() == before
            &&& sources.last() == behind
            &&& (after, reports) == run(items, policy, tokens, draws)
        }
}

/// A run looks only at the draws of its own tokens.
pub proof fn lemma_run_draws(
    items: Seq<u64>,
    policy: UnderflowPolicy,
    tokens: Seq<Seq<char>>,
    first: Seq<u64>,
    second: Seq<u64>,
)
    requires
        forall|i: int| 0 <= i < tokens.len() ==> first[i] == second[i],
    ensures
        run(items, policy, tokens, first) == run(items, policy, tokens, second),
    decreases tokens.len(),
{
    if tokens.len() > 0 {
        lemma_run_draws(items, policy, tokens.drop_last(), first, second);
    }
}

/// A run that has ended after `k` tokens stays as it is, whatever tokens
/// follow.
pub proof fn lemma_run_halted(
    items: Seq<u64>,
    policy: UnderflowPolicy,
    tokens: Seq<Seq<char>>,
    draws: Seq<u64>,
    k: int,
)
    requires
        0 <= k <= tokens.len(),
        halted(run(items, policy, tokens.take(k), draws).1),
    ensures
        run(items, policy, tokens, draws) == run(items, policy, tokens.take(k), draws),
    decreases tokens.len(),
{
    if k == tokens.len() {
        assert(tokens.take(k) == tokens);
    } else {
        assert(tokens.drop_last().take(k) == tokens.take(k));
        lemma_run_halted(items, policy, tokens.drop_last(), draws, k);
    }
}

/// What an evaluation leaves: the stack, and the conditions reported on the
/// way, in order. If the last condition is fatal, the evaluation ended there.
#[derive(Debug)]
pub struct Evaluation {
    pub stack: Stack,
    pub diagnostics: Vec<Diagnostic>,
}

impl Evaluation {
    /// Whether the evaluation ended on a fatal condition.
    pub fn halted(&self) -> (b: bool)
        ensures
            b == halted(self.diagnostics@),
    {
        let n = self.diagnostics.len();
        n > 0 && self.diagnostics[n - 1].is_fatal()
    }
}

/// What one line of an interactive session leads to.
#[derive(Debug)]
pub enum Turn {
    /// The line asks to end the session.
    Quit,
    /// The line was interpreted; these conditions were reported.
    Reports(Vec<Diagnostic>),
}

/// Whether `line` asks to end an interactive session: it is the word `quit`
/// with nothing but white space around it.
pub open spec fn asks_to_quit(line: Seq<char>) -> bool {
    trimmed(line) == "quit"@
}

impl Stack {
    /// Interprets `tokens` in order and returns the conditions reported. A
    /// fatal condition ends the run: the tokens behind it are not looked at.
    pub fn run_tokens<R: Entropy>(&mut self, tokens: &Vec<Vec<char>>, entropy: &mut R) -> (reports:
        Vec<Diagnostic>)
        ensures
            final(self).policy() == old(self).policy(),
            runs_to(
                old(self)@,
                old(self).policy(),
                texts(tokens@),
                *old(entropy),
                final(self)@,
                reports@,
                *final(entropy),
            ),
            draws_nothing(texts(tokens@)) ==> *final(entropy) == *old(entropy),
    {
        let ghost start = self@;
        let ghost policy = self.policy();
        let ghost all = texts(tokens@);
        let ghost mut draws: Seq<u64> = Seq::empty();
        let ghost mut sources: Seq<R> = seq![*entropy];
        let mut reports: Vec<Diagnostic> = Vec::new();
        let n = tokens.len();
        let mut i: usize = 0;
        let mut stopped = false;
        while i < n && !stopped
            invariant
                i <= n,
                n == tokens@.len(),
                all == texts(tokens@),
                self.policy() == policy,
                stopped == halted(reports@),
                (self@, reports@) == run(start, policy, all.take(i as int), draws),
                served(start, policy, all.take(i as int), draws, sources),
                sources.first() == *old(entropy),
                sources.last() == *entropy,
                draws_nothing(all) ==> *entropy == *old(entropy),
            decreases n - i,
        {
            let ghost before = self@;
            let ghost old_draws = draws;
            let ghost old_sources = sources;
            let ghost source = *entropy;
            let command = classify_chars(&tokens[i]);
            let outcome = self.execute(command, entropy);
            proof {
                let d = choose|d: u64|
                    {
                        &&& command is Rand ==> source.may_yield(d, &*entropy)
                        &&& (self@, outcome) == #[trigger] step(before, policy, command, d)
                    };
                draws = old_draws.push(d);
                sources = old_sources.push(*entropy);
                let shorter = all.take(i as int);
                let longer = all.take(i + 1);
                assert(longer.drop_last() == shorter);
                lemma_run_draws(start, policy, shorter, old_draws, draws);
                assert forall|j: int| 0 <= j < longer.len() implies if draws_at(
                    start,
                    policy,
                    longer,
                    draws,
                    j,
                ) {
                    (#[trigger] sources[j]).may_yield(draws[j], &sources[j + 1])
                } else {
                    sources[j + 1] == sources[j]
                } by {
                    assert(longer.take(j) == shorter.take(j));
                    lemma_run_draws(start, policy, shorter.take(j), old_draws, draws);
                }
            }
            match outcome {
                Ok(()) => {},
                Err(d) => {
                    reports.push(d);
                    stopped = d.is_fatal();
                },
            }
            i += 1;
        }
        proof {
            let shorter = all.take(i as int);
            let padded = draws + Seq::new((n - i) as nat, |j: int| 0u64);
            let kept = sources + Seq::new((n - i) as nat, |j: int| *entropy);
            lemma_run_draws(start, policy, shorter, draws, padded);
            if stopped {
                lemma_run_halted(start, policy, all, padded, i as int);
            } else {
                assert(shorter == all);
            }
            assert forall|j: int| 0 <= j < all.len() implies if draws_at(
                start,
                policy,
                all,
                padded,
                j,
            ) {
                (#[trigger] kept[j]).may_yield(padded[j], &kept[j + 1])
            } else {
                kept[j + 1] == kept[j]
            } by {
                if j < i {
                    assert(all.take(j) == shorter.take(j));
                    lemma_run_draws(start, policy, shorter.take(j), draws, padded);
                } else {
                    assert(all.take(j).take(i as int) == shorter);
                    lemma_run_halted(start, policy, all.take(j), padded, i as int);
                }
            }
            assert(served(start, policy, all, padded, kept));
        }
        reports
    }

    /// Interprets one line: its tokens, in order.
    pub fn run_line<R: Entropy>(&mut self, line: &str, entropy: &mut R) -> (reports: Vec<
        Diagnostic,
    >)
        ensures
            final(self).policy() == old(self).policy(),
            runs_to(
                old(self)@,
                old(self).policy(),
                tokens_of(line@),
                *old(entropy),
                final(self)@,
                reports@,
                *final(entropy),
            ),
            draws_nothing(tokens_of(line@)) ==> *final(entropy) == *old(entropy),
    {
        let tokens = tokenize(line);
        self.run_tokens(&tokens, entropy)
    }

    /// One turn of an interactive session: the line `quit` ends the session
    /// and touches nothing; any other line is interpreted.
    pub fn interact<R: Entropy>(&mut self, line: &str, entropy: &mut R) -> (turn: Turn)
        ensures
            final(self).policy() == old(self).policy(),
            asks_to_quit(line@) ==> {
                &&& turn is Quit
                &&& final(self)@ == old(self)@
                &&& *final(entropy) == *old(entropy)
            },
            !asks_to_quit(line@) ==> {
                &&& turn matches Turn::Reports(reports)
                &&& runs_to(
                    old(self)@,
                    old(self).policy(),
                    tokens_of(line@),
                    *old(entropy),
                    final(self)@,
                    reports@,
                    *final(entropy),
                )
            },
            draws_nothing(tokens_of(line@)) ==> *final(entropy) == *old(entropy),
    {
        if is_quit(line) {
            Turn::Quit
        } else {
            Turn::Reports(self.run_line(line, entropy))
        }
    }
}

/// Whether `line` asks to end an interactive session.
pub fn is_quit(line: &str) -> (b: bool)
    ensures
        b == asks_to_quit(line@),
{
    let chars = chars_of(line);
    let word = trim(&chars);
    spells(&word, "quit")
}

/// Evaluates `cmds` on an empty stack under `policy` and returns the stack
/// and the conditions reported. Under the strict policy the evaluation ends
/// at the first underflow, which is then the last condition.
pub fn calculate<R: Entropy>(cmds: &str, policy: UnderflowPolicy, entropy: &mut R) -> (e:
    Evaluation)
    ensures
        e.stack.policy() == policy,
        runs_to(
            Seq::empty(),
            policy,
            tokens_of(cmds@),
            *old(entropy),
            e.stack@,
            e.diagnostics@,
            *final(entropy),
        ),
        draws_nothing(tokens_of(cmds@)) ==> *final(entropy) == *old(entropy),
{
    let mut stack = Stack::with_policy(policy);
    let diagnostics = stack.run_line(cmds, entropy);
    Evaluation { stack, diagnostics }
}

} // verus!
