use vstd::prelude::*;

use crate::classify::{
    is_alpha, is_blank, is_digit, is_operator_start, one_char_token, one_or_two_char_token,
    operator_pair, single_token, keyword_of,
};
use crate::failure::{message_of, CompilationFailure, FailureKind};
use crate::literals::{
    find_from, identifier, lemma_digits_from, lemma_find_from, lemma_word_from, number,
    number_len, parse_comment_to_next_line, string, word_from, collect_text,
};
use crate::token::Token;

verus! {

broadcast use vstd::string::group_string_axioms;

/// Number of newlines among the first `p` characters.
pub open spec fn newlines(s: Seq<char>, p: int) -> nat
    decreases p,
{
    if p <= 0 {
        0
    } else {
        newlines(s, p - 1) + if s[p - 1] == '\n' {
            1nat
        } else {
            0nat
        }
    }
}

/// The line, counted from 1, of the character at `p`.
pub open spec fn line_at(s: Seq<char>, p: int) -> nat {
    1 + newlines(s, p)
}

/// Whether a line comment starts at `p`.
pub open spec fn comment_at(s: Seq<char>, p: int) -> bool {
    0 <= p && p + 1 < s.len() && s[p] == '/' && s[p + 1] == '/'
}

/// The position just after the comment that starts at `p`: after its newline,
/// or the end of the input.
pub open spec fn comment_end(s: Seq<char>, p: int) -> int {
    let q = find_from(s, p, '\n');
    if q < s.len() {
        q + 1
    } else {
        s.len() as int
    }
}

/// The first position at or after `p` that is neither whitespace nor part of
/// a line comment.
pub open spec fn skip_trivia(s: Seq<char>, p: int) -> int
    decreases s.len() - p,
{
    if p < 0 || p >= s.len() {
        p
    } else if is_blank(s[p]) {
        skip_trivia(s, p + 1)
    } else if comment_at(s, p) {
        proof {
            lemma_find_from(s, p, '\n');
        }
        skip_trivia(s, comment_end(s, p))
    } else {
        p
    }
}

/// Number of characters taken by the lexeme that starts at `p`, by maximal
/// munch; for a failure, the characters skipped past it.
pub open spec fn lexeme_len(s: Seq<char>, p: int) -> nat {
    let c = s[p];
    if single_token(c) is Some || c == '/' {
        1
    } else if is_operator_start(c) {
        if p + 1 < s.len() && s[p + 1] == '=' {
            2
        } else {
            1
        }
    } else if c == '"' {
        let q = find_from(s, p + 1, '"');
        if q < s.len() {
            (q - p + 1) as nat
        } else {
            (s.len() - p) as nat
        }
    } else if is_digit(c) {
        number_len(s, p)
    } else if is_alpha(c) {
        word_from(s, p)
    } else {
        1
    }
}

/// The failure, if any, that the lexeme starting at `p` is.
pub open spec fn failure_at(s: Seq<char>, p: int) -> Option<FailureKind> {
    let c = s[p];
    if c == '"' && find_from(s, p + 1, '"') == s.len() {
        Some(FailureKind::UnterminatedString)
    } else if single_token(c) is None && c != '/' && !is_operator_start(c) && c != '"'
        && !is_digit(c) && !is_alpha(c) {
        Some(FailureKind::UnexpectedCharacter)
    } else {
        None
    }
}

/// `t` is the token that the lexeme starting at `p` stands for.
pub open spec fn token_at(s: Seq<char>, p: int, t: Token) -> bool {
    let c = s[p];
    let n = lexeme_len(s, p);
    let w = s.subrange(p, p + n);
    if single_token(c) is Some {
        t == single_token(c)->0
    } else if c == '/' {
        t == Token::Slash
    } else if is_operator_start(c) {
        t == if n == 2 {
            operator_pair(c).1
        } else {
            operator_pair(c).0
        }
    } else if c == '"' {
        t is String && t->String_0@ == s.subrange(p + 1, p + n - 1)
    } else if is_digit(c) {
        t is Number && t->Number_0@ == w
    } else if is_alpha(c) {
        match keyword_of(w) {
            Some(k) => t == k,
            None => t is Identifier && t->Identifier_0@ == w,
        }
    } else {
        false
    }
}

/// `f` reports the failure that the lexeme starting at `p` is.
pub open spec fn failure_report(s: Seq<char>, p: int, f: CompilationFailure) -> bool {
    &&& failure_at(s, p) == Some(f.kind)
    &&& f.line_no == line_at(s, p)
    &&& f.context@ == s.subrange(p, p + lexeme_len(s, p))
    &&& f.msg@ == message_of(f.kind)
}

pub proof fn lemma_lexeme_len(s: Seq<char>, p: int)
    requires
        0 <= p < s.len(),
    ensures
        1 <= lexeme_len(s, p),
        p + lexeme_len(s, p) <= s.len(),
{
    lemma_find_from(s, p + 1, '"');
    lemma_digits_from(s, p);
    lemma_word_from(s, p);
    let d = crate::literals::digits_from(s, p);
    if p + d + 1 < s.len() {
        lemma_digits_from(s, p + d + 1);
    }
}

pub proof fn lemma_skip_trivia(s: Seq<char>, p: int)
    requires
        0 <= p <= s.len(),
    ensures
        p <= skip_trivia(s, p) <= s.len(),
        skip_trivia(s, p) < s.len() ==> !is_blank(s[skip_trivia(s, p)]) && !comment_at(
            s,
            skip_trivia(s, p),
        ),
    decreases s.len() - p,
{
    if p < s.len() {
        if is_blank(s[p]) {
            lemma_skip_trivia(s, p + 1);
        } else if comment_at(s, p) {
            lemma_find_from(s, p, '\n');
            lemma_skip_trivia(s, comment_end(s, p));
        }
    }
}

/// Positions at which the lexemes after `p` start, tokens and failures alike.
pub open spec fn token_starts(s: Seq<char>, p: int) -> Seq<int>
    decreases s.len() - p,
{
    let q = skip_trivia(s, p);
    if p < 0 || p > s.len() || q >= s.len() {
        seq![]
    } else {
        proof {
            lemma_skip_trivia(s, p);
            lemma_lexeme_len(s, q);
        }
        let rest = token_starts(s, q + lexeme_len(s, q));
        if failure_at(s, q) is None {
            seq![q] + rest
        } else {
            rest
        }
    }
}

/// Positions at which the failures after `p` start.
pub open spec fn failure_starts(s: Seq<char>, p: int) -> Seq<int>
    decreases s.len() - p,
{
    let q = skip_trivia(s, p);
    if p < 0 || p > s.len() || q >= s.len() {
        seq![]
    } else {
        proof {
            lemma_skip_trivia(s, p);
            lemma_lexeme_len(s, q);
        }
        let rest = failure_starts(s, q + lexeme_len(s, q));
        if failure_at(s, q) is Some {
            seq![q] + rest
        } else {
            rest
        }
    }
}

pub proof fn lemma_newlines_bound(s: Seq<char>, p: int)
    ensures
        newlines(s, p) <= if p < 0 { 0 } else { p },
    decreases p,
{
    if p > 0 {
        lemma_newlines_bound(s, p - 1);
    }
}

/// The state of one scan over a source text.
pub struct Scanner {
    /// The source, one entry per character.
    chars: Vec<char>,
    /// Index of the next character to read.
    current: usize,
    /// Line of the character at `current`, counted from 1.
    line: usize,
    /// Set once `EndOfInput` has been handed out.
    done: bool,
}

impl Scanner {
    /// The characters being scanned.
    pub closed spec fn source(&self) -> Seq<char> {
        self.chars@
    }

    /// Where the next lexeme is looked for.
    pub closed spec fn position(&self) -> int {
        self.current as int
    }

    /// Whether the end-of-input token has been handed out.
    pub closed spec fn is_done(&self) -> bool {
        self.done
    }

    /// The cursor lies in the source, the line counter matches it, and the
    /// scan is over only at the end of the source.
    pub closed spec fn wf(&self) -> bool {
        &&& self.chars@.len() < usize::MAX
        &&& self.current <= self.chars@.len()
        &&& self.line == line_at(self.chars@, self.current as int)
        &&& self.done ==> self.current == self.chars@.len()
    }

    /// A scanner at the start of `data`.
    pub fn new(data: String) -> (r: Self)
        requires
            data@.len() < usize::MAX,
        ensures
            r.wf(),
            r.source() == data@,
            r.position() == 0,
            !r.is_done(),
    {
        let mut chars: Vec<char> = Vec::new();
        for c in it: data.as_str().chars()
            invariant
                chars@ == it.seq().take(it.index() as int),
        {
            chars.push(c);
        }
        Scanner { chars, current: 0, line: 1, done: false }
    }

    /// Moves the cursor to `target`, counting the newlines passed over.
    fn advance_to(&mut self, target: usize)
        requires
            old(self).wf(),
            !old(self).done,
            old(self).current <= target <= old(self).chars@.len(),
        ensures
            final(self).wf(),
            final(self).chars@ == old(self).chars@,
            final(self).current == target,
            !final(self).done,
    {
        let ghost s = self.chars@;
        while self.current < target
            invariant
                self.wf(),
                !self.done,
                self.chars@ == s,
                self.current <= target <= s.len(),
            decreases target - self.current,
        {
            proof {
                lemma_newlines_bound(s, self.current + 1);
            }
            if self.chars[self.current] == '\n' {
                self.line = self.line + 1;
            }
            self.current = self.current + 1;
        }
    }

    /// Skips whitespace and line comments.
    fn skip_trivia(&mut self)
        requires
            old(self).wf(),
            !old(self).done,
        ensures
            final(self).wf(),
            final(self).chars@ == old(self).chars@,
            final(self).current == skip_trivia(old(self).chars@, old(self).current as int),
            !final(self).done,
    {
        let ghost s = self.chars@;
        let ghost start = self.current as int;
        while self.current < self.chars.len()
            invariant_except_break
                self.wf(),
                !self.done,
                self.chars@ == s,
                skip_trivia(s, start) == skip_trivia(s, self.current as int),
            ensures
                self.wf(),
                !self.done,
                self.chars@ == s,
                skip_trivia(s, start) == self.current,
            decreases s.len() - self.current,
        {
            let c = self.chars[self.current];
            if c == ' ' || c == '\t' || c == '\r' || c == '\n' {
                self.advance_to(self.current + 1);
            } else if c == '/' && self.current < self.chars.len() - 1 && self.chars[self.current
                + 1] == '/' {
                let n = parse_comment_to_next_line(&self.chars, self.current);
                proof {
                    lemma_find_from(s, self.current as int, '\n');
                }
                self.advance_to(self.current + n);
            } else {
                break;
            }
        }
    }

    /// Produces the next token or failure, after skipping whitespace and
    /// comments. At the end of the input it gives `EndOfInput` once, with its
    /// line, and nothing after that.
    pub fn scan_token(&mut self) -> (r: Option<Result<(Token, usize), CompilationFailure>>)
        requires
            old(self).wf(),
        ensures
            final(self).wf(),
            final(self).source() == old(self).source(),
            ({
                let s = old(self).source();
                let p = skip_trivia(s, old(self).position());
                if old(self).is_done() {
                    &&& r is None
                    &&& final(self).is_done()
                    &&& final(self).position() == old(self).position()
                } else if p >= s.len() {
                    &&& r == Some(
                        Ok::<(Token, usize), CompilationFailure>(
                            (Token::EndOfInput, line_at(s, s.len() as int) as usize),
                        ),
                    )
                    &&& final(self).is_done()
                    &&& final(self).position() == s.len()
                } else {
                    &&& !final(self).is_done()
                    &&& final(self).position() == p + lexeme_len(s, p)
                    &&& match r {
                        Some(Ok((t, l))) => failure_at(s, p) is None && token_at(s, p, t) && l
                            == line_at(s, p),
                        Some(Err(f)) => failure_report(s, p, f),
                        None => false,
                    }
                }
            }),
    {
        if self.done {
            return None;
        }
        let ghost s = self.chars@;
        self.skip_trivia();
        proof {
            lemma_skip_trivia(s, old(self).current as int);
        }
        let p = self.current;
        let len = self.chars.len();
        if p == len {
            self.done = true;
            return Some(Ok((Token::EndOfInput, self.line)));
        }
        proof {
            lemma_lexeme_len(s, p as int);
            lemma_find_from(s, p + 1, '"');
        }
        let line = self.line;
        let c = self.chars[p];
        if let Some(t) = one_char_token(c) {
            self.advance_to(p + 1);
            return Some(Ok((t, line)));
        }
        if c == '/' {
            self.advance_to(p + 1);
            return Some(Ok((Token::Slash, line)));
        }
        let next = if p + 1 < len {
            self.chars[p + 1]
        } else {
            ' '
        };
        if let Some((t, n)) = one_or_two_char_token(c, next) {
            self.advance_to(p + n);
            return Some(Ok((t, line)));
        }
        let scanned = match string(&self.chars, p) {
            Some(res) => Some(res),
            None => match number(&self.chars, p) {
                Some(res) => Some(res),
                None => identifier(&self.chars, p),
            },
        };
        match scanned {
            Some(Ok((t, n))) => {
                self.advance_to(p + n);
                Some(Ok((t, line)))
            },
            Some(Err(kind)) => {
                let context = collect_text(&self.chars, p, len);
                self.advance_to(len);
                Some(Err(CompilationFailure::new(kind, line, context)))
            },
            None => {
                let context = collect_text(&self.chars, p, p + 1);
                self.advance_to(p + 1);
                Some(Err(CompilationFailure::new(FailureKind::UnexpectedCharacter, line, context)))
            },
        }
    }
}

/// `tokens` and `failures` are what one scan of `s` yields, in source order:
/// a token for each lexeme that is one, each with its line, then
/// `EndOfInput`; and a failure for each lexeme that is one.
pub open spec fn scan_result(
    s: Seq<char>,
    tokens: Seq<(Token, usize)>,
    failures: Seq<CompilationFailure>,
) -> bool {
    let ts = token_starts(s, 0);
    let fs = failure_starts(s, 0);
    &&& tokens.len() == ts.len() + 1
    &&& forall|i: int|
        0 <= i < ts.len() ==> token_at(s, ts[i], #[trigger] tokens[i].0) && tokens[i].1
            == line_at(s, ts[i])
    &&& tokens[ts.len() as int] == (Token::EndOfInput, line_at(s, s.len() as int) as usize)
    &&& failures.len() == fs.len()
    &&& forall|i: int| 0 <= i < fs.len() ==> failure_report(s, fs[i], #[trigger] failures[i])
}

/// Scans the whole of `source`: every token, ending with `EndOfInput`, each
/// with the line it starts on, and every failure, both in source order.
pub fn scan_tokens(source: String) -> (r: (Vec<(Token, usize)>, Vec<CompilationFailure>))
    requires
        source@.len() < usize::MAX,
    ensures
        scan_result(source@, r.0@, r.1@),
{
    let ghost s = source@;
    let mut scanner = Scanner::new(source);
    let mut tokens: Vec<(Token, usize)> = Vec::new();
    let mut failures: Vec<CompilationFailure> = Vec::new();
    let ghost mut ts: Seq<int> = seq![];
    let ghost mut fs: Seq<int> = seq![];
    loop
        invariant
            scanner.wf(),
            scanner.source() == s,
            !scanner.is_done() ==> {
                &&& token_starts(s, 0) == ts + token_starts(s, scanner.position())
                &&& failure_starts(s, 0) == fs + failure_starts(s, scanner.position())
                &&& tokens@.len() == ts.len()
            },
            scanner.is_done() ==> {
                &&& token_starts(s, 0) == ts
                &&& failure_starts(s, 0) == fs
                &&& tokens@.len() == ts.len() + 1
                &&& tokens@[ts.len() as int] == (
                    Token::EndOfInput,
                    line_at(s, s.len() as int) as usize,
                )
            },
            forall|i: int|
                0 <= i < ts.len() ==> token_at(s, ts[i], #[trigger] tokens@[i].0) && tokens@[i].1
                    == line_at(s, ts[i]),
            failures@.len() == fs.len(),
            forall|i: int| 0 <= i < fs.len() ==> failure_report(s, fs[i], #[trigger] failures@[i]),
        ensures
            scanner.is_done(),
        decreases
            if scanner.is_done() {
                0
            } else {
                s.len() - scanner.position() + 1
            },
    {
        let ghost before = scanner.position();
        let ghost old_tokens = tokens@;
        let ghost old_ts = ts;
        proof {
            if !scanner.is_done() {
                lemma_skip_trivia(s, before);
                let p = skip_trivia(s, before);
                if p < s.len() {
                    lemma_lexeme_len(s, p);
                }
            }
        }
        match scanner.scan_token() {
            None => {
                break;
            },
            Some(Ok(item)) => {
                proof {
                    let p = skip_trivia(s, before);
                    if p < s.len() {
                        ts = ts + seq![p];
                        assert(token_starts(s, before) == seq![p] + token_starts(
                            s,
                            scanner.position(),
                        ));
                    }
                }
                tokens.push(item);
                assert(tokens@ == old_tokens.push(item));
            },
            Some(Err(f)) => {
                proof {
                    let p = skip_trivia(s, before);
                    fs = fs + seq![p];
                    assert(failure_starts(s, before) == seq![p] + failure_starts(
                        s,
                        scanner.position(),
                    ));
                }
                let ghost prev = failures@;
                failures.push(f);
                assert(forall|i: int| 0 <= i < prev.len() ==> failures@[i] == prev[i]);
            },
        }
        assert forall|i: int| 0 <= i < ts.len() implies token_at(
            s,
            ts[i],
            #[trigger] tokens@[i].0,
        ) && tokens@[i].1 == line_at(s, ts[i]) by {
            if i < old_ts.len() {
                assert(old_ts[i] == ts[i]);
                assert(tokens@[i] == old_tokens[i]);
            }
        }
    }
    assert(scan_result(s, tokens@, failures@));
    (tokens, failures)
}

} // verus!
