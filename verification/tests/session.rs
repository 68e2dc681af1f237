use hc::{calculate, is_quit, Diagnostic, Entropy, FixedSequence, Stack, ThreadRandom, Turn, UnderflowPolicy};

struct Counter {
    next: u64,
}

impl Entropy for Counter {
    fn next_u64(&mut self) -> u64 {
        self.next += 1;
        self.next
    }
}

fn evaluate(cmds: &str, policy: UnderflowPolicy) -> (Vec<u64>, Vec<Diagnostic>, bool) {
    let mut entropy = FixedSequence::new(vec![0x11, 0x22]);
    let e = calculate(cmds, policy, &mut entropy);
    let halted = e.halted();
    assert_eq!(e.stack.policy(), policy);
    (e.stack.values(), e.diagnostics, halted)
}

#[test]
fn scenario_batch_expression() {
    let (values, diagnostics, halted) = evaluate("100 200 + 5 * 10 / 90 gcd", UnderflowPolicy::Strict);
    assert_eq!(values, vec![0x30]);
    assert!(diagnostics.is_empty());
    assert!(!halted);
    let (values, diagnostics, halted) = evaluate("100 200 + 5 * 10 / 90 gcd", UnderflowPolicy::Lenient);
    assert_eq!(values, vec![0x30]);
    assert!(diagnostics.is_empty());
    assert!(!halted);
}

#[test]
fn scenario_batch_strict_underflow_halts() {
    let (values, diagnostics, halted) = evaluate("+", UnderflowPolicy::Strict);
    assert_eq!(values, Vec::<u64>::new());
    assert_eq!(diagnostics, vec![Diagnostic::Underflow]);
    assert!(halted);
}

#[test]
fn scenario_batch_lenient_underflow_goes_on() {
    let (values, diagnostics, halted) = evaluate("+", UnderflowPolicy::Lenient);
    assert_eq!(values, vec![0]);
    assert!(diagnostics.is_empty());
    assert!(!halted);
}

#[test]
fn tokens_behind_a_fatal_condition_are_left_out() {
    let (values, diagnostics, halted) = evaluate("1 + 2 3 zz", UnderflowPolicy::Strict);
    assert_eq!(values, vec![1]);
    assert_eq!(diagnostics, vec![Diagnostic::Underflow]);
    assert!(halted);
}

#[test]
fn recoverable_conditions_are_reported_in_order() {
    let (values, diagnostics, halted) = evaluate("zz 4 0 / 0 mod g 2 +", UnderflowPolicy::Strict);
    assert_eq!(values, vec![4, 0, 2]);
    assert_eq!(
        diagnostics,
        vec![
            Diagnostic::InvalidInput,
            Diagnostic::DivisionByZero,
            Diagnostic::DivisionByZero,
            Diagnostic::InvalidInput,
        ]
    );
    assert!(!halted);
}

#[test]
fn tokens_may_be_kept_apart_by_any_white_space() {
    for policy in [UnderflowPolicy::Strict, UnderflowPolicy::Lenient] {
        let (values, diagnostics, halted) = evaluate("100\n200\t+", policy);
        assert_eq!(values, vec![0x300]);
        assert!(diagnostics.is_empty());
        assert!(!halted);
    }
    let (values, diagnostics, _) = evaluate("1\r\n2\u{a0}3  +\n+\n", UnderflowPolicy::Strict);
    assert_eq!(values, vec![6]);
    assert!(diagnostics.is_empty());
}

#[test]
fn input_without_a_token_does_nothing() {
    for cmds in ["", " ", "\n", " \t \n"] {
        let (values, diagnostics, halted) = evaluate(cmds, UnderflowPolicy::Strict);
        assert!(values.is_empty(), "{:?}", cmds);
        assert!(diagnostics.is_empty(), "{:?}", cmds);
        assert!(!halted);
    }
}

#[test]
fn white_space_in_a_row_reports_nothing() {
    let (values, diagnostics, _) = evaluate("1  2", UnderflowPolicy::Strict);
    assert_eq!(values, vec![1, 2]);
    assert!(diagnostics.is_empty());
    let (values, diagnostics, _) = evaluate("  1 2 +\n", UnderflowPolicy::Strict);
    assert_eq!(values, vec![3]);
    assert!(diagnostics.is_empty());
}

#[test]
fn batch_random_values_come_from_the_source() {
    let (values, diagnostics, _) = evaluate("rand rand rand +", UnderflowPolicy::Strict);
    assert_eq!(values, vec![0x11, 0x33]);
    assert!(diagnostics.is_empty());
}

#[test]
fn a_source_of_ones_own_can_be_handed_in() {
    let mut counter = Counter { next: 0 };
    let e = calculate("rand rand rand", UnderflowPolicy::Strict, &mut counter);
    assert_eq!(e.stack.values(), vec![1, 2, 3]);
    assert_eq!(counter.next, 3);
}

#[test]
fn the_thread_generator_yields_varied_values() {
    let mut source = ThreadRandom::new();
    let mut stack = Stack::new();
    for _ in 0..64 {
        assert_eq!(stack.cmd("rand", &mut source), Ok(()));
    }
    let values = stack.values();
    assert_eq!(values.len(), 64);
    assert!(values.iter().any(|v| *v != values[0]));
    assert!(values.iter().any(|v| *v > u32::MAX as u64));
}

#[test]
fn fixed_sequence_repeats_its_values() {
    let mut source = FixedSequence::new(vec![5, 6, 7]);
    let drawn: Vec<u64> = (0..7).map(|_| source.next_u64()).collect();
    assert_eq!(drawn, vec![5, 6, 7, 5, 6, 7, 5]);
    let mut single = FixedSequence::new(vec![9]);
    assert_eq!(single.next_u64(), 9);
    assert_eq!(single.next_u64(), 9);
    let mut empty = FixedSequence::new(vec![]);
    assert_eq!(empty.next_u64(), 0);
    assert_eq!(empty.next_u64(), 0);
}

#[test]
fn quit_is_recognised_with_white_space_around() {
    assert!(is_quit("quit"));
    assert!(is_quit("quit\n"));
    assert!(is_quit("  quit \r\n"));
    assert!(!is_quit("quit now"));
    assert!(!is_quit("Quit"));
    assert!(!is_quit("q"));
    assert!(!is_quit(""));
    assert!(!is_quit("1 2 +"));
}

#[test]
fn a_session_keeps_its_stack_between_lines() {
    let mut stack = Stack::new();
    let mut entropy = FixedSequence::new(vec![]);
    assert!(matches!(stack.interact("100 200\n", &mut entropy), Turn::Reports(r) if r.is_empty()));
    assert_eq!(stack.values(), vec![0x100, 0x200]);
    assert!(matches!(stack.interact("+\n", &mut entropy), Turn::Reports(r) if r.is_empty()));
    assert_eq!(stack.values(), vec![0x300]);
    assert!(
        matches!(stack.interact("0 / oops\n", &mut entropy), Turn::Reports(r) if r == vec![Diagnostic::DivisionByZero, Diagnostic::InvalidInput])
    );
    assert_eq!(stack.values(), vec![0x300, 0]);
    assert!(matches!(stack.interact(" quit\n", &mut entropy), Turn::Quit));
    assert_eq!(stack.values(), vec![0x300, 0]);
}

#[test]
fn a_lenient_session_survives_underflow() {
    let mut stack = Stack::new();
    let mut entropy = FixedSequence::new(vec![]);
    assert!(matches!(stack.interact("+ - * not\n", &mut entropy), Turn::Reports(r) if r.is_empty()));
    assert_eq!(stack.values(), vec![u64::MAX]);
}

#[test]
fn run_line_reports_and_goes_on() {
    let mut stack = Stack::with_policy(UnderflowPolicy::Strict);
    let mut entropy = FixedSequence::new(vec![]);
    assert_eq!(stack.run_line("1 2 3", &mut entropy), Vec::<Diagnostic>::new());
    assert_eq!(stack.run_line("+ + + 7", &mut entropy), vec![Diagnostic::Underflow]);
    assert_eq!(stack.values(), vec![6]);
}

#[test]
fn run_tokens_takes_tokens_as_chars() {
    let mut stack = Stack::with_policy(UnderflowPolicy::Strict);
    let mut entropy = FixedSequence::new(vec![]);
    let tokens: Vec<Vec<char>> = vec!["a".chars().collect(), "5".chars().collect(), "*".chars().collect()];
    assert_eq!(stack.run_tokens(&tokens, &mut entropy), Vec::<Diagnostic>::new());
    assert_eq!(stack.values(), vec![50]);
    assert_eq!(stack.run_tokens(&Vec::new(), &mut entropy), Vec::<Diagnostic>::new());
    assert_eq!(stack.values(), vec![50]);
}
