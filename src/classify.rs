use vstd::prelude::*;

use crate::token::Token;

verus! {

pub open spec fn is_digit(c: char) -> bool {
    '0' <= c && c <= '9'
}

/// A character that may start a word: an ASCII letter or an underscore.
pub open spec fn is_alpha(c: char) -> bool {
    ('a' <= c && c <= 'z') || ('A' <= c && c <= 'Z') || c == '_'
}

/// A character that may continue a word.
pub open spec fn is_alnum(c: char) -> bool {
    is_alpha(c) || is_digit(c)
}

/// Whitespace that separates tokens.
pub open spec fn is_blank(c: char) -> bool {
    c == ' ' || c == '\t' || c == '\r' || c == '\n'
}

/// The characters that are always a token of their own.
pub open spec fn single_token(c: char) -> Option<Token> {
    if c == '(' {
        Some(Token::LeftParen)
    } else if c == ')' {
        Some(Token::RightParen)
    } else if c == '{' {
        Some(Token::LeftBrace)
    } else if c == '}' {
        Some(Token::RightBrace)
    } else if c == ',' {
        Some(Token::Comma)
    } else if c == '.' {
        Some(Token::Dot)
    } else if c == '-' {
        Some(Token::Minus)
    } else if c == '+' {
        Some(Token::Plus)
    } else if c == ';' {
        Some(Token::Semicolon)
    } else if c == '*' {
        Some(Token::Star)
    } else {
        None
    }
}

/// The characters that start an operator of one or two characters.
pub open spec fn is_operator_start(c: char) -> bool {
    c == '!' || c == '=' || c == '>' || c == '<'
}

/// The operator that `c` alone stands for, and the one it forms followed by `=`.
pub open spec fn operator_pair(c: char) -> (Token, Token) {
    if c == '!' {
        (Token::Bang, Token::BangEqual)
    } else if c == '=' {
        (Token::Equal, Token::EqualEqual)
    } else if c == '>' {
        (Token::Greater, Token::GreaterEqual)
    } else {
        (Token::Less, Token::LessEqual)
    }
}

/// The keyword spelled exactly `w`, if any.
pub open spec fn keyword_of(w: Seq<char>) -> Option<Token> {
    if w == Token::And.text() {
        Some(Token::And)
    } else if w == Token::Class.text() {
        Some(Token::Class)
    } else if w == Token::Else.text() {
        Some(Token::Else)
    } else if w == Token::False.text() {
        Some(Token::False)
    } else if w == Token::Fun.text() {
        Some(Token::Fun)
    } else if w == Token::For.text() {
        Some(Token::For)
    } else if w == Token::If.text() {
        Some(Token::If)
    } else if w == Token::Nil.text() {
        Some(Token::Nil)
    } else if w == Token::Or.text() {
        Some(Token::Or)
    } else if w == Token::Print.text() {
        Some(Token::Print)
    } else if w == Token::Return.text() {
        Some(Token::Return)
    } else if w == Token::Super.text() {
        Some(Token::Super)
    } else if w == Token::This.text() {
        Some(Token::This)
    } else if w == Token::True.text() {
        Some(Token::True)
    } else if w == Token::Var.text() {
        Some(Token::Var)
    } else if w == Token::While.text() {
        Some(Token::While)
    } else {
        None
    }
}

/// Classifies a character that is a token by itself.
pub fn one_char_token(c: char) -> (r: Option<Token>)
    ensures
        r == single_token(c),
{
    match c {
        '(' => Some(Token::LeftParen),
        ')' => Some(Token::RightParen),
        '{' => Some(Token::LeftBrace),
        '}' => Some(Token::RightBrace),
        ',' => Some(Token::Comma),
        '.' => Some(Token::Dot),
        '-' => Some(Token::Minus),
        '+' => Some(Token::Plus),
        ';' => Some(Token::Semicolon),
        '*' => Some(Token::Star),
        _ => None,
    }
}

/// Classifies `!`, `=`, `>` or `<` given the character after it, preferring
/// the two-character operator; returns the token and the characters it takes.
pub fn one_or_two_char_token(cur_char: char, next_char: char) -> (r: Option<(Token, usize)>)
    ensures
        !is_operator_start(cur_char) ==> r is None,
        is_operator_start(cur_char) && next_char == '=' ==> r == Some(
            (operator_pair(cur_char).1, 2usize),
        ),
        is_operator_start(cur_char) && next_char != '=' ==> r == Some(
            (operator_pair(cur_char).0, 1usize),
        ),
        r matches Some((t, n)) ==> t.spec_len() == n,
{
    let (one, two) = match cur_char {
        '!' => (Token::Bang, Token::BangEqual),
        '=' => (Token::Equal, Token::EqualEqual),
        '>' => (Token::Greater, Token::GreaterEqual),
        '<' => (Token::Less, Token::LessEqual),
        _ => return None,
    };
    if next_char == '=' {
        Some((two, 2))
    } else {
        Some((one, 1))
    }
}

/// Whether `text` is exactly the characters of `word`.
fn spelled(text: &str, n: usize, word: &[char]) -> (r: bool)
    requires
        n == text@.len(),
    ensures
        r == (text@ == word@),
{
    if n != word.len() {
        return false;
    }
    let mut i: usize = 0;
    while i < n
        invariant
            n == text@.len(),
            n == word@.len(),
            i <= n,
            forall|k: int| 0 <= k < i ==> text@[k] == word@[k],
        decreases n - i,
    {
        if text.get_char(i) != word[i] {
            return false;
        }
        i = i + 1;
    }
    assert(text@ == word@);
    true
}

/// Reclassifies a scanned word as a keyword: an exact, case-sensitive match
/// against the reserved words.
pub fn keywords(word: &String) -> (r: Option<Token>)
    ensures
        r == keyword_of(word@),
{
    let text = word.as_str();
    let n = text.unicode_len();
    if n < 2 || n > 6 {
        return None;
    }
    if spelled(text, n, &['a', 'n', 'd']) {
        return Some(Token::And);
    }
    if spelled(text, n, &['c', 'l', 'a', 's', 's']) {
        return Some(Token::Class);
    }
    if spelled(text, n, &['e', 'l', 's', 'e']) {
        return Some(Token::Else);
    }
    if spelled(text, n, &['f', 'a', 'l', 's', 'e']) {
        return Some(Token::False);
    }
    if spelled(text, n, &['f', 'u', 'n']) {
        return Some(Token::Fun);
    }
    if spelled(text, n, &['f', 'o', 'r']) {
        return Some(Token::For);
    }
    if spelled(text, n, &['i', 'f']) {
        return Some(Token::If);
    }
    if spelled(text, n, &['n', 'i', 'l']) {
        return Some(Token::Nil);
    }
    if spelled(text, n, &['o', 'r']) {
        return Some(Token::Or);
    }
    if spelled(text, n, &['p', 'r', 'i', 'n', 't']) {
        return Some(Token::Print);
    }
    if spelled(text, n, &['r', 'e', 't', 'u', 'r', 'n']) {
        return Some(Token::Return);
    }
    if spelled(text, n, &['s', 'u', 'p', 'e', 'r']) {
        return Some(Token::Super);
    }
    if spelled(text, n, &['t', 'h', 'i', 's']) {
        return Some(Token::This);
    }
    if spelled(text, n, &['t', 'r', 'u', 'e']) {
        return Some(Token::True);
    }
    if spelled(text, n, &['v', 'a', 'r']) {
        return Some(Token::Var);
    }
    if spelled(text, n, &['w', 'h', 'i', 'l', 'e']) {
        return Some(Token::While);
    }
    None
}

} // verus!
