use vstd::prelude::*;

use crate::classify::{is_alnum, is_alpha, is_digit, keyword_of, keywords};
use crate::failure::FailureKind;
use crate::token::Token;

verus! {

/// The first index at or after `i` holding `c`, or `s.len()` if there is none.
pub open spec fn find_from(s: Seq<char>, i: int, c: char) -> int
    decreases s.len() - i,
{
    if i < 0 || i >= s.len() {
        s.len() as int
    } else if s[i] == c {
        i
    } else {
        find_from(s, i + 1, c)
    }
}

/// Length of the run of digits that starts at `i`.
pub open spec fn digits_from(s: Seq<char>, i: int) -> nat
    decreases s.len() - i,
{
    if 0 <= i < s.len() && is_digit(s[i]) {
        1 + digits_from(s, i + 1)
    } else {
        0
    }
}

/// Length of the run of word characters that starts at `i`.
pub open spec fn word_from(s: Seq<char>, i: int) -> nat
    decreases s.len() - i,
{
    if 0 <= i < s.len() && is_alnum(s[i]) {
        1 + word_from(s, i + 1)
    } else {
        0
    }
}

/// Length of the numeral that starts at `i`: its digits, then a `.` and more
/// digits only where a digit follows the `.` at once.
pub open spec fn number_len(s: Seq<char>, i: int) -> nat {
    let d = digits_from(s, i);
    let j = i + d;
    if j + 1 < s.len() && s[j] == '.' && is_digit(s[j + 1]) {
        d + 1 + digits_from(s, j + 1)
    } else {
        d
    }
}

pub proof fn lemma_find_from(s: Seq<char>, i: int, c: char)
    requires
        0 <= i <= s.len(),
    ensures
        i <= find_from(s, i, c) <= s.len(),
        find_from(s, i, c) < s.len() ==> s[find_from(s, i, c)] == c,
        forall|k: int| i <= k < find_from(s, i, c) ==> s[k] != c,
    decreases s.len() - i,
{
    if i < s.len() && s[i] != c {
        lemma_find_from(s, i + 1, c);
    }
}

pub proof fn lemma_digits_from(s: Seq<char>, i: int)
    requires
        0 <= i <= s.len(),
    ensures
        i + digits_from(s, i) <= s.len(),
        forall|k: int| i <= k < i + digits_from(s, i) ==> is_digit(#[trigger] s[k]),
        i + digits_from(s, i) < s.len() ==> !is_digit(s[i + digits_from(s, i)]),
    decreases s.len() - i,
{
    if i < s.len() && is_digit(s[i]) {
        lemma_digits_from(s, i + 1);
    }
}

pub proof fn lemma_word_from(s: Seq<char>, i: int)
    requires
        0 <= i <= s.len(),
    ensures
        i + word_from(s, i) <= s.len(),
        forall|k: int| i <= k < i + word_from(s, i) ==> is_alnum(#[trigger] s[k]),
        i + word_from(s, i) < s.len() ==> !is_alnum(s[i + word_from(s, i)]),
    decreases s.len() - i,
{
    if i < s.len() && is_alnum(s[i]) {
        lemma_word_from(s, i + 1);
    }
}

/// Relies on `String::push`: appends `c` after the last character.
#[verifier::external_body]
fn push_char(s: &mut String, c: char)
    ensures
        final(s)@ == old(s)@.push(c),
{
    s.push(c);
}

/// Copies `src[from..to]` into a new string.
pub fn collect_text(src: &Vec<char>, from: usize, to: usize) -> (r: String)
    requires
        from <= to <= src@.len(),
    ensures
        r@ == src@.subrange(from as int, to as int),
{
    let mut r = String::new();
    let mut i = from;
    while i < to
        invariant
            from <= i <= to <= src@.len(),
            r@ == src@.subrange(from as int, i as int),
        decreases to - i,
    {
        push_char(&mut r, src[i]);
        i = i + 1;
        assert(r@ =~= src@.subrange(from as int, i as int));
    }
    r
}

/// Scans a string literal at `start`. Its text is everything up to the next
/// quote, newlines included; without a closing quote it is unterminated.
pub fn string(src: &Vec<char>, start: usize) -> (r: Option<Result<(Token, usize), FailureKind>>)
    ensures
        ({
            let s = src@;
            let close = find_from(s, start + 1, '"');
            match r {
                None => !(start < s.len() && s[start as int] == '"'),
                Some(Ok((t, n))) => {
                    &&& start < s.len() && s[start as int] == '"'
                    &&& close < s.len()
                    &&& t is String
                    &&& t->String_0@ == s.subrange(start + 1, close)
                    &&& n == close - start + 1
                    &&& t.spec_len() == n
                },
                Some(Err(k)) => {
                    &&& start < s.len() && s[start as int] == '"'
                    &&& close == s.len()
                    &&& k == FailureKind::UnterminatedString
                },
            }
        }),
{
    if start >= src.len() || src[start] != '"' {
        return None;
    }
    let ghost s = src@;
    let mut j = start + 1;
    while j < src.len() && src[j] != '"'
        invariant
            s == src@,
            start < j <= s.len(),
            s[start as int] == '"',
            find_from(s, start + 1, '"') == find_from(s, j as int, '"'),
        decreases s.len() - j,
    {
        j = j + 1;
    }
    if j == src.len() {
        return Some(Err(FailureKind::UnterminatedString));
    }
    let text = collect_text(src, start + 1, j);
    let t = Token::String(text);
    assert(t.text() =~= seq!['"'] + s.subrange(start + 1, j as int) + seq!['"']);
    Some(Ok((t, j - start + 1)))
}

/// End of the run of digits that starts at `i`.
fn skip_digits(src: &Vec<char>, i: usize) -> (r: usize)
    requires
        i <= src@.len(),
    ensures
        r == i + digits_from(src@, i as int),
{
    let ghost s = src@;
    let mut j = i;
    while j < src.len() && '0' <= src[j] && src[j] <= '9'
        invariant
            s == src@,
            i <= j <= s.len(),
            digits_from(s, i as int) == (j - i) + digits_from(s, j as int),
        decreases s.len() - j,
    {
        j = j + 1;
    }
    j
}

/// Scans a numeral at `start`: a run of digits, then a `.` and a run of
/// digits only where a digit follows the `.`. A `.` with no digit after it is
/// left for the next token, so `10.` is the number `10` and then a dot.
pub fn number(src: &Vec<char>, start: usize) -> (r: Option<Result<(Token, usize), FailureKind>>)
    ensures
        ({
            let s = src@;
            match r {
                None => !(start < s.len() && is_digit(s[start as int])),
                Some(Ok((t, n))) => {
                    &&& start < s.len() && is_digit(s[start as int])
                    &&& t is Number
                    &&& n == number_len(s, start as int)
                    &&& t->Number_0@ == s.subrange(start as int, start + n)
                    &&& t.spec_len() == n
                },
                Some(Err(_)) => false,
            }
        }),
{
    if start >= src.len() || !('0' <= src[start] && src[start] <= '9') {
        return None;
    }
    let ghost s = src@;
    let mut end = skip_digits(src, start);
    proof {
        lemma_digits_from(s, start as int);
    }
    if end < src.len() - 1 && src[end] == '.' && '0' <= src[end + 1] && src[end + 1] <= '9' {
        proof {
            lemma_digits_from(s, end + 1);
        }
        end = skip_digits(src, end + 1);
    }
    let text = collect_text(src, start, end);
    Some(Ok((Token::Number(text), end - start)))
}

/// Scans a word at `start`: a maximal run of ASCII letters, digits and
/// underscores that begins with a letter or underscore. A reserved word
/// becomes its keyword, any other word an identifier.
pub fn identifier(src: &Vec<char>, start: usize) -> (r: Option<Result<(Token, usize), FailureKind>>)
    ensures
        ({
            let s = src@;
            match r {
                None => !(start < s.len() && is_alpha(s[start as int])),
                Some(Ok((t, n))) => {
                    let w = s.subrange(start as int, start + n);
                    &&& start < s.len() && is_alpha(s[start as int])
                    &&& n == word_from(s, start as int)
                    &&& match keyword_of(w) {
                        Some(k) => t == k,
                        None => t is Identifier && t->Identifier_0@ == w,
                    }
                    &&& t.spec_len() == n
                },
                Some(Err(_)) => false,
            }
        }),
{
    if start >= src.len() || !is_word_start(src[start]) {
        return None;
    }
    let ghost s = src@;
    let mut j = start;
    while j < src.len() && (is_word_start(src[j]) || ('0' <= src[j] && src[j] <= '9'))
        invariant
            s == src@,
            start <= j <= s.len(),
            word_from(s, start as int) == (j - start) + word_from(s, j as int),
        decreases s.len() - j,
    {
        j = j + 1;
    }
    let text = collect_text(src, start, j);
    match keywords(&text) {
        Some(k) => Some(Ok((k, j - start))),
        None => Some(Ok((Token::Identifier(text), j - start))),
    }
}

fn is_word_start(c: char) -> (r: bool)
    ensures
        r == is_alpha(c),
{
    ('a' <= c && c <= 'z') || ('A' <= c && c <= 'Z') || c == '_'
}

/// Length of the line comment at `start`, up to and including the newline
/// that ends it (or to the end of the input).
pub fn parse_comment_to_next_line(src: &Vec<char>, start: usize) -> (r: usize)
    requires
        start <= src@.len(),
    ensures
        find_from(src@, start as int, '\n') < src@.len() ==> start + r == find_from(
            src@,
            start as int,
            '\n',
        ) + 1,
        find_from(src@, start as int, '\n') == src@.len() ==> start + r == src@.len(),
{
    let ghost s = src@;
    let mut j = start;
    while j < src.len() && src[j] != '\n'
        invariant
            s == src@,
            start <= j <= s.len(),
            find_from(s, start as int, '\n') == find_from(s, j as int, '\n'),
        decreases s.len() - j,
    {
        j = j + 1;
    }
    if j < src.len() {
        j + 1 - start
    } else {
        j - start
    }
}

} // verus!
