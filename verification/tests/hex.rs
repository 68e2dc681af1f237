use hc::hex::{hex_digit, leading_zero_digits, parse_hex, significant_digits};
use hc::{FixedSequence, Stack};

fn next(state: &mut u64) -> u64 {
    *state ^= *state << 13;
    *state ^= *state >> 7;
    *state ^= *state << 17;
    *state
}

fn text(chars: Vec<char>) -> String {
    chars.into_iter().collect()
}

fn rendered(value: u64) -> String {
    let mut s = "0".repeat(leading_zero_digits(value) as usize);
    s.push_str(&text(significant_digits(value)));
    s
}

#[test]
fn hex_digits_have_their_values() {
    assert_eq!(hex_digit('0'), Some(0));
    assert_eq!(hex_digit('9'), Some(9));
    assert_eq!(hex_digit('a'), Some(10));
    assert_eq!(hex_digit('f'), Some(15));
    assert_eq!(hex_digit('A'), Some(10));
    assert_eq!(hex_digit('F'), Some(15));
    assert_eq!(hex_digit('g'), None);
    assert_eq!(hex_digit('G'), None);
    assert_eq!(hex_digit('/'), None);
    assert_eq!(hex_digit(':'), None);
    assert_eq!(hex_digit('@'), None);
    assert_eq!(hex_digit('`'), None);
    assert_eq!(hex_digit(' '), None);
}

#[test]
fn hex_digit_agrees_with_to_digit_on_every_char() {
    for code in 0..=0x10ffffu32 {
        if let Some(c) = char::from_u32(code) {
            assert_eq!(hex_digit(c).map(u32::from), c.to_digit(16), "{:?}", c);
        }
    }
}

#[test]
fn literals_are_read_in_base_16() {
    assert_eq!(parse_hex("0"), Some(0));
    assert_eq!(parse_hex("10"), Some(16));
    assert_eq!(parse_hex("100"), Some(0x100));
    assert_eq!(parse_hex("ff"), Some(255));
    assert_eq!(parse_hex("FF"), Some(255));
    assert_eq!(parse_hex("DeadBeef"), Some(0xdead_beef));
    assert_eq!(parse_hex("ffffffffffffffff"), Some(u64::MAX));
    assert_eq!(parse_hex("0123456789abcdef"), Some(0x0123_4567_89ab_cdef));
}

#[test]
fn a_plus_sign_may_lead_a_literal() {
    assert_eq!(parse_hex("+ff"), Some(255));
    assert_eq!(parse_hex("+0"), Some(0));
    assert_eq!(parse_hex("+"), None);
    assert_eq!(parse_hex("++1"), None);
    assert_eq!(parse_hex("1+"), None);
}

#[test]
fn leading_zeros_do_not_count_towards_the_width() {
    assert_eq!(parse_hex("0000000000000000000001"), Some(1));
    assert_eq!(parse_hex("00ffffffffffffffff"), Some(u64::MAX));
    assert_eq!(parse_hex("0000000000000000"), Some(0));
}

#[test]
fn values_past_64_bits_are_no_literals() {
    assert_eq!(parse_hex("10000000000000000"), None);
    assert_eq!(parse_hex("fffffffffffffffff"), None);
    assert_eq!(parse_hex("010000000000000000"), None);
    assert_eq!(parse_hex("1000000000000000000000000000000000"), None);
}

#[test]
fn other_texts_are_no_literals() {
    for t in ["", " ", "g", "1g", "g1", "-1", "0x1", "1 ", " 1", "1_0", "1.0", "١", "ｆ", "\n"] {
        assert_eq!(parse_hex(t), None, "{:?}", t);
    }
}

#[test]
fn parse_hex_agrees_with_from_str_radix() {
    let alphabet: Vec<char> = "0123456789abcdefABCDEF+-gG_ x".chars().collect();
    let mut state = 0x2545_f491_4f6c_dd1du64;
    for _ in 0..20000 {
        let len = (next(&mut state) % 20) as usize;
        let mut s = String::new();
        for _ in 0..len {
            let bias = next(&mut state) % 8;
            let pick = if bias < 6 {
                (next(&mut state) % 22) as usize
            } else {
                (next(&mut state) % alphabet.len() as u64) as usize
            };
            s.push(alphabet[pick]);
        }
        assert_eq!(parse_hex(&s), u64::from_str_radix(&s, 16).ok(), "{:?}", s);
    }
}

#[test]
fn significant_digits_are_lower_case_without_leading_zeros() {
    assert_eq!(significant_digits(0), Vec::<char>::new());
    assert_eq!(significant_digits(1), vec!['1']);
    assert_eq!(significant_digits(0xabc), vec!['a', 'b', 'c']);
    assert_eq!(text(significant_digits(0x1000)), "1000");
    assert_eq!(text(significant_digits(u64::MAX)), "ffffffffffffffff");
    assert_eq!(text(significant_digits(0x0123_4567_89ab_cdef)), "123456789abcdef");
}

#[test]
fn leading_zero_digits_fill_up_to_sixteen() {
    assert_eq!(leading_zero_digits(0), 16);
    assert_eq!(leading_zero_digits(1), 15);
    assert_eq!(leading_zero_digits(0xf), 15);
    assert_eq!(leading_zero_digits(0x10), 14);
    assert_eq!(leading_zero_digits(0xabc), 13);
    assert_eq!(leading_zero_digits(0x0fff_ffff_ffff_ffff), 1);
    assert_eq!(leading_zero_digits(0x1000_0000_0000_0000), 0);
    assert_eq!(leading_zero_digits(u64::MAX), 0);
}

#[test]
fn rendering_agrees_with_the_formatter() {
    let mut state = 0x6a09_e667_f3bc_c908u64;
    for _ in 0..2000 {
        let shift = next(&mut state) % 64;
        let value = next(&mut state) >> shift;
        assert_eq!(rendered(value), format!("{:016x}", value));
        assert_eq!(leading_zero_digits(value), value.leading_zeros() / 4);
        if value > 0 {
            assert_eq!(text(significant_digits(value)), format!("{:x}", value));
        }
    }
    assert_eq!(rendered(0), "0000000000000000");
}

#[test]
fn literals_round_trip_through_the_stack() {
    for token in ["0", "1", "ff", "FF", "007f", "DeadBeef", "ffffffffffffffff", "0000000000000000", "0123456789ABCDEF"] {
        let mut stack = Stack::new();
        let mut entropy = FixedSequence::new(vec![]);
        assert_eq!(stack.cmd(token, &mut entropy), Ok(()));
        let entry = stack.entry(0).unwrap();
        let mut shown = "0".repeat(entry.leading_zeros as usize);
        shown.push_str(&text(significant_digits(entry.value)));
        let mut expected = "0".repeat(16 - token.len());
        expected.push_str(&token.to_lowercase());
        assert_eq!(shown, expected);
    }
}

#[test]
fn random_literals_round_trip() {
    let digits: Vec<char> = "0123456789abcdefABCDEF".chars().collect();
    let mut state = 0xbb67_ae85_84ca_a73bu64;
    for _ in 0..2000 {
        let len = 1 + (next(&mut state) % 16) as usize;
        let mut token = String::new();
        for _ in 0..len {
            token.push(digits[(next(&mut state) % 22) as usize]);
        }
        let value = parse_hex(&token).unwrap();
        let mut expected = "0".repeat(16 - len);
        expected.push_str(&token.to_lowercase());
        assert_eq!(rendered(value), expected);
    }
}
