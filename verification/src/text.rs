//! Lines of input as sequences of characters: white space, trimming, and the
//! cutting of a line into the tokens that white space keeps apart.

use vstd::prelude::*;

verus! {

/// Whether `c` is white space as Unicode defines it (`White_Space`): tab to
/// carriage return, the space, next line, the no-break space, the ogham
/// space mark, the spaces of fixed width, the line and paragraph separators,
/// the narrow no-break space, the medium mathematical space and the
/// ideographic space.
pub open spec fn is_space(c: char) -> bool {
    let code = c as u32;
    ||| 0x09 <= code <= 0x0d
    ||| code == 0x20
    ||| code == 0x85
    ||| code == 0xa0
    ||| code == 0x1680
    ||| 0x2000 <= code <= 0x200a
    ||| code == 0x2028
    ||| code == 0x2029
    ||| code == 0x202f
    ||| code == 0x205f
    ||| code == 0x3000
}

/// `s` without the white space in front of it.
pub open spec fn trimmed_start(s: Seq<char>) -> Seq<char>
    decreases s.len(),
{
    if s.len() > 0 && is_space(s.first()) {
        trimmed_start(s.drop_first())
    } else {
        s
    }
}

/// `s` without the white space behind it.
pub open spec fn trimmed_end(s: Seq<char>) -> Seq<char>
    decreases s.len(),
{
    if s.len() > 0 && is_space(s.last()) {
        trimmed_end(s.drop_last())
    } else {
        s
    }
}

/// `s` without the white space around it.
pub open spec fn trimmed(s: Seq<char>) -> Seq<char> {
    trimmed_end(trimmed_start(s))
}

/// The length of the word that `s` begins with: the number of characters in
/// front of `s` before its first white space, or all of them where it holds
/// none.
pub open spec fn word_len(s: Seq<char>) -> nat
    decreases s.len(),
{
    if s.len() > 0 && !is_space(s.first()) {
        1 + word_len(s.drop_first())
    } else {
        0
    }
}

/// Whether `s` is a word: at least one character, and none of them white
/// space.
pub open spec fn is_word(s: Seq<char>) -> bool {
    s.len() > 0 && forall|j: int| 0 <= j < s.len() ==> !is_space(#[trigger] s[j])
}

/// The tokens of `line`: its longest runs of characters that are no white
/// space, in order. White space in front is passed over; then the first
/// token is the word that the line begins with, and the tokens of what
/// follows the word come after it. A line of white space alone has no token.
pub open spec fn tokens_of(line: Seq<char>) -> Seq<Seq<char>>
    decreases line.len(),
    via tokens_of_decreases
{
    if line.len() == 0 {
        Seq::empty()
    } else if is_space(line.first()) {
        tokens_of(line.drop_first())
    } else {
        seq![line.take(word_len(line) as int)] + tokens_of(line.skip(word_len(line) as int))
    }
}

#[via_fn]
proof fn tokens_of_decreases(line: Seq<char>) {
    lemma_word_len(line);
}

/// The character sequences that `tokens` hold.
pub open spec fn texts(tokens: Seq<Vec<char>>) -> Seq<Seq<char>> {
    tokens.map_values(|token: Vec<char>| token@)
}

/// The word in front of a string ends where the string ends or white space
/// stands, and not before: it is the longest run without white space that
/// the string begins with.
pub proof fn lemma_word_len(s: Seq<char>)
    ensures
        word_len(s) <= s.len(),
        forall|j: int| 0 <= j < word_len(s) ==> !is_space(#[trigger] s[j]),
        word_len(s) == s.len() || is_space(s[word_len(s) as int]),
        s.len() > 0 && !is_space(s.first()) ==> word_len(s) >= 1,
    decreases s.len(),
{
    if s.len() > 0 && !is_space(s.first()) {
        let rest = s.drop_first();
        lemma_word_len(rest);
        assert forall|j: int| 0 <= j < word_len(s) implies !is_space(#[trigger] s[j]) by {
            if j > 0 {
                assert(s[j] == rest[j - 1]);
            }
        }
        if word_len(s) < s.len() {
            assert(s[word_len(s) as int] == rest[word_len(rest) as int]);
        }
    }
}

/// A run without white space in front of a string that ends where the
/// string ends or white space stands is the word that the string begins
/// with.
pub proof fn lemma_word_len_is(s: Seq<char>, k: int)
    requires
        0 <= k <= s.len(),
        forall|j: int| 0 <= j < k ==> !is_space(#[trigger] s[j]),
        k == s.len() || is_space(s[k]),
    ensures
        word_len(s) == k,
    decreases k,
{
    if k > 0 {
        let rest = s.drop_first();
        assert(!is_space(s[0]));
        assert forall|j: int| 0 <= j < k - 1 implies !is_space(#[trigger] rest[j]) by {
            assert(rest[j] == s[j + 1]);
        }
        lemma_word_len_is(rest, k - 1);
    }
}

/// Every token is a word: it holds a character, and it holds no white space.
pub proof fn lemma_tokens_are_words(line: Seq<char>)
    ensures
        forall|i: int| 0 <= i < tokens_of(line).len() ==> is_word(#[trigger] tokens_of(line)[i]),
    decreases line.len(),
{
    if line.len() > 0 {
        if is_space(line.first()) {
            lemma_tokens_are_words(line.drop_first());
            assert(tokens_of(line) == tokens_of(line.drop_first()));
        } else {
            let n = word_len(line) as int;
            let later = tokens_of(line.skip(n));
            lemma_word_len(line);
            lemma_tokens_are_words(line.skip(n));
            assert(is_word(line.take(n)));
            assert forall|i: int| 0 <= i < tokens_of(line).len() implies is_word(
                #[trigger] tokens_of(line)[i],
            ) by {
                if i > 0 {
                    assert(tokens_of(line)[i] == later[i - 1]);
                }
            }
        }
    }
}

/// A word alone is its own single token.
pub proof fn lemma_word_is_token(word: Seq<char>)
    requires
        is_word(word),
    ensures
        tokens_of(word) == seq![word],
{
    lemma_word_len_is(word, word.len() as int);
    assert(word.take(word.len() as int) == word);
    assert(tokens_of(word.skip(word.len() as int)) == Seq::<Seq<char>>::empty());
}

/// White space keeps tokens apart: the tokens of two texts with a white
/// space between them are the tokens of the first and then those of the
/// second.
pub proof fn lemma_tokens_delimited(first: Seq<char>, between: char, second: Seq<char>)
    requires
        is_space(between),
    ensures
        tokens_of(first + seq![between] + second) == tokens_of(first) + tokens_of(second),
    decreases first.len(),
{
    let line = first + seq![between] + second;
    if first.len() == 0 {
        assert(line.drop_first() == second);
    } else if is_space(first.first()) {
        assert(line.drop_first() == first.drop_first() + seq![between] + second);
        lemma_tokens_delimited(first.drop_first(), between, second);
    } else {
        let n = word_len(first) as int;
        lemma_word_len(first);
        assert forall|j: int| 0 <= j < n implies !is_space(#[trigger] line[j]) by {
            assert(line[j] == first[j]);
        }
        assert(is_space(line[n])) by {
            if n < first.len() {
                assert(line[n] == first[n]);
            }
        }
        lemma_word_len_is(line, n);
        assert(line.take(n) == first.take(n));
        assert(line.skip(n) == first.skip(n) + seq![between] + second);
        lemma_tokens_delimited(first.skip(n), between, second);
    }
}

/// Whether `c` is white space.
pub fn is_whitespace(c: char) -> (b: bool)
    ensures
        b == is_space(c),
{
    let code: u32 = c as u32;
    (0x09 <= code && code <= 0x0d) || code == 0x20 || code == 0x85 || code == 0xa0 || code
        == 0x1680 || (0x2000 <= code && code <= 0x200a) || code == 0x2028 || code == 0x2029 || code
        == 0x202f || code == 0x205f || code == 0x3000
}

/// The characters of `s`, in order.
pub fn chars_of(s: &str) -> (v: Vec<char>)
    ensures
        v@ == s@,
{
    let mut v: Vec<char> = Vec::new();
    for c in it: s.chars()
        invariant
            v@ == it.seq().take(it.index() as int),
            it.seq() == s@,
    {
        v.push(c);
    }
    v
}

/// Whether `chars` spells `word`.
pub fn spells(chars: &Vec<char>, word: &str) -> (same: bool)
    ensures
        same == (chars@ == word@),
{
    let n = chars.len();
    let mut i: usize = 0;
    for c in it: word.chars()
        invariant
            it.seq() == word@,
            n == chars@.len(),
            i == it.index(),
            i <= n,
            chars@.take(i as int) == word@.take(i as int),
    {
        if i >= n || chars[i] != c {
            assert(chars@ != word@) by {
                if chars@ == word@ {
                    assert(chars@[i as int] == word@[i as int]);
                }
            }
            return false;
        }
        i += 1;
    }
    assert(word@.take(i as int) == word@);
    if i == n {
        assert(chars@.take(i as int) == chars@);
    }
    i == n
}

/// Moving the start of a string over white space does not change what is
/// left once the white space in front is gone.
proof fn lemma_trimmed_start_skip(s: Seq<char>, k: int)
    requires
        0 <= k <= s.len(),
        forall|i: int| 0 <= i < k ==> is_space(#[trigger] s[i]),
    ensures
        trimmed_start(s) == trimmed_start(s.skip(k)),
    decreases k,
{
    if k == 0 {
        assert(s.skip(0) == s);
    } else {
        lemma_trimmed_start_skip(s.drop_first(), k - 1);
        assert(s.drop_first().skip(k - 1) == s.skip(k));
    }
}

/// Moving the end of a string back over white space does not change what is
/// left once the white space behind is gone.
proof fn lemma_trimmed_end_take(s: Seq<char>, k: int)
    requires
        0 <= k <= s.len(),
        forall|i: int| k <= i < s.len() ==> is_space(#[trigger] s[i]),
    ensures
        trimmed_end(s) == trimmed_end(s.take(k)),
    decreases s.len() - k,
{
    if k == s.len() {
        assert(s.take(k) == s);
    } else {
        lemma_trimmed_end_take(s.drop_last(), k);
        assert(s.drop_last().take(k) == s.take(k));
    }
}

/// `chars` without the white space around it.
pub fn trim(chars: &Vec<char>) -> (t: Vec<char>)
    ensures
        t@ == trimmed(chars@),
{
    let n = chars.len();
    let mut start: usize = 0;
    while start < n && is_whitespace(chars[start])
        invariant
            start <= n,
            n == chars@.len(),
            forall|i: int| 0 <= i < start ==> is_space(#[trigger] chars@[i]),
        decreases n - start,
    {
        start += 1;
    }
    let ghost rest = chars@.skip(start as int);
    proof {
        lemma_trimmed_start_skip(chars@, start as int);
        assert(trimmed_start(chars@) == rest) by {
            if start < n {
                assert(rest.first() == chars@[start as int]);
            }
        }
    }
    let mut end: usize = n;
    while end > start && is_whitespace(chars[end - 1])
        invariant
            start <= end <= n,
            n == chars@.len(),
            forall|i: int| end <= i < n ==> is_space(#[trigger] chars@[i]),
        decreases end,
    {
        end -= 1;
    }
    let ghost kept = rest.take(end - start);
    proof {
        assert forall|i: int| end - start <= i < rest.len() implies is_space(#[trigger] rest[i]) by {
            assert(rest[i] == chars@[i + start]);
        }
        lemma_trimmed_end_take(rest, end - start);
        assert(trimmed_end(kept) == kept) by {
            if end > start {
                assert(kept.last() == chars@[end - 1]);
            }
        }
    }
    let mut t: Vec<char> = Vec::new();
    let mut i: usize = start;
    while i < end
        invariant
            start <= i <= end <= n,
            n == chars@.len(),
            t@ == chars@.subrange(start as int, i as int),
        decreases end - i,
    {
        t.push(chars[i]);
        i += 1;
    }
    t
}

/// Cuts `line` into its tokens.
pub fn tokenize(line: &str) -> (tokens: Vec<Vec<char>>)
    ensures
        texts(tokens@) == tokens_of(line@),
        forall|i: int| 0 <= i < tokens@.len() ==> is_word(#[trigger] tokens@[i]@),
{
    let chars = chars_of(line);
    let n = chars.len();
    let mut tokens: Vec<Vec<char>> = Vec::new();
    let mut i: usize = 0;
    assert(chars@.skip(0) == chars@);
    while i < n
        invariant
            i <= n,
            n == chars@.len(),
            texts(tokens@) + tokens_of(chars@.skip(i as int)) == tokens_of(chars@),
        decreases n - i,
    {
        let ghost rest = chars@.skip(i as int);
        let ghost earlier = texts(tokens@);
        assert(rest.first() == chars@[i as int]);
        if is_whitespace(chars[i]) {
            assert(rest.drop_first() == chars@.skip(i + 1));
            i += 1;
        } else {
            let start = i;
            let mut word: Vec<char> = Vec::new();
            while i < n && !is_whitespace(chars[i])
                invariant
                    start <= i <= n,
                    n == chars@.len(),
                    word@ == chars@.subrange(start as int, i as int),
                    forall|j: int| start <= j < i ==> !is_space(#[trigger] chars@[j]),
                decreases n - i,
            {
                word.push(chars[i]);
                i += 1;
            }
            proof {
                assert forall|j: int| 0 <= j < i - start implies !is_space(#[trigger] rest[j]) by {
                    assert(rest[j] == chars@[start + j]);
                }
                if i < n {
                    assert(rest[i - start] == chars@[i as int]);
                }
                lemma_word_len_is(rest, i - start);
                assert(rest.take(i - start) == word@);
                assert(rest.skip(i - start) == chars@.skip(i as int));
            }
            tokens.push(word);
            assert(texts(tokens@) == earlier.push(word@));
            assert(earlier.push(word@) + tokens_of(chars@.skip(i as int)) == earlier + tokens_of(
                rest,
            ));
        }
    }
    proof {
        lemma_tokens_are_words(chars@);
        assert forall|i: int| 0 <= i < tokens@.len() implies is_word(#[trigger] tokens@[i]@) by {
            assert(texts(tokens@)[i] == tokens@[i]@);
        }
    }
    tokens
}

} // verus!
