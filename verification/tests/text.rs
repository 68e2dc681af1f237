use hc::text::{chars_of, is_whitespace, tokenize, trim};

fn next(state: &mut u64) -> u64 {
    *state ^= *state << 13;
    *state ^= *state >> 7;
    *state ^= *state << 17;
    *state
}

fn tokens(line: &str) -> Vec<String> {
    tokenize(line).into_iter().map(|t| t.into_iter().collect()).collect()
}

fn trimmed(s: &str) -> String {
    trim(&s.chars().collect()).into_iter().collect()
}

#[test]
fn chars_of_gives_every_char() {
    assert_eq!(chars_of(""), Vec::<char>::new());
    assert_eq!(chars_of("a+ é"), vec!['a', '+', ' ', 'é']);
}

#[test]
fn white_space_agrees_with_the_char_method_on_every_char() {
    for code in 0..=0x10ffffu32 {
        if let Some(c) = char::from_u32(code) {
            assert_eq!(is_whitespace(c), c.is_whitespace(), "U+{:04X}", code);
        }
    }
}

#[test]
fn trim_removes_white_space_at_both_ends() {
    assert_eq!(trimmed(""), "");
    assert_eq!(trimmed("   "), "");
    assert_eq!(trimmed("abc"), "abc");
    assert_eq!(trimmed("  abc"), "abc");
    assert_eq!(trimmed("abc \n"), "abc");
    assert_eq!(trimmed("\t a b \r\n"), "a b");
    assert_eq!(trimmed("\u{3000}x\u{a0}"), "x");
}

#[test]
fn trim_agrees_with_the_str_method() {
    let alphabet: Vec<char> = " \t\n\rab+\u{a0}\u{2003}".chars().collect();
    let mut state = 0x3c6e_f372_fe94_f82bu64;
    for _ in 0..5000 {
        let len = (next(&mut state) % 9) as usize;
        let mut s = String::new();
        for _ in 0..len {
            s.push(alphabet[(next(&mut state) % alphabet.len() as u64) as usize]);
        }
        assert_eq!(trimmed(&s), s.trim(), "{:?}", s);
    }
}

#[test]
fn lines_are_cut_at_white_space() {
    assert_eq!(tokens("1 2 +"), vec!["1", "2", "+"]);
    assert_eq!(tokens("abc"), vec!["abc"]);
    assert_eq!(tokens("100\n200\t+"), vec!["100", "200", "+"]);
    assert_eq!(tokens("1\t2"), vec!["1", "2"]);
    assert_eq!(tokens("1\r\n2\u{a0}3\u{3000}4"), vec!["1", "2", "3", "4"]);
    assert_eq!(tokens("a+b"), vec!["a+b"]);
}

#[test]
fn runs_of_white_space_hold_no_token() {
    assert_eq!(tokens("1  2"), vec!["1", "2"]);
    assert_eq!(tokens(" 1 "), vec!["1"]);
    assert_eq!(tokens("1 2 +\n"), vec!["1", "2", "+"]);
    assert_eq!(tokens("\t \n1 \t\n 2\n\n"), vec!["1", "2"]);
}

#[test]
fn a_line_of_white_space_alone_has_no_token() {
    assert_eq!(tokens(""), Vec::<String>::new());
    assert_eq!(tokens(" "), Vec::<String>::new());
    assert_eq!(tokens("\n"), Vec::<String>::new());
    assert_eq!(tokens(" \t\r\n\u{2003} "), Vec::<String>::new());
}

#[test]
fn tokens_are_words() {
    let alphabet: Vec<char> = "  \t\n\u{a0}12+f".chars().collect();
    let mut state = 0x510e_527f_ade6_82d1u64;
    for _ in 0..2000 {
        let len = (next(&mut state) % 12) as usize;
        let mut s = String::new();
        for _ in 0..len {
            s.push(alphabet[(next(&mut state) % alphabet.len() as u64) as usize]);
        }
        for token in tokens(&s) {
            assert!(!token.is_empty(), "{:?}", s);
            assert!(!token.chars().any(|c| c.is_whitespace()), "{:?}", s);
        }
    }
}

#[test]
fn tokenize_agrees_with_split_whitespace() {
    let alphabet: Vec<char> = "  \t\n\r\u{a0}\u{2028}12+f".chars().collect();
    let mut state = 0xa54f_f53a_5f1d_36f1u64;
    for _ in 0..5000 {
        let len = (next(&mut state) % 12) as usize;
        let mut s = String::new();
        for _ in 0..len {
            s.push(alphabet[(next(&mut state) % alphabet.len() as u64) as usize]);
        }
        let expected: Vec<String> = s.split_whitespace().map(|t| t.to_string()).collect();
        assert_eq!(tokens(&s), expected, "{:?}", s);
    }
}
