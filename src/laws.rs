use vstd::prelude::*;

use crate::classify::{is_operator_start, operator_pair};
use crate::literals::lemma_find_from;
use crate::scanner::{
    failure_at, failure_report, failure_starts, lemma_lexeme_len, lemma_skip_trivia, lexeme_len,
    line_at, scan_result, skip_trivia, token_at, token_starts,
};
use crate::failure::CompilationFailure;
use crate::token::Token;

verus! {

/// Every lexeme start after `p` lies in the input, and those of tokens are
/// lexemes that are no failure.
pub proof fn lemma_starts(s: Seq<char>, p: int)
    requires
        0 <= p <= s.len(),
    ensures
        forall|i: int|
            0 <= i < token_starts(s, p).len() ==> {
                let q = #[trigger] token_starts(s, p)[i];
                &&& p <= q < s.len()
                &&& failure_at(s, q) is None
            },
        forall|i: int|
            0 <= i < failure_starts(s, p).len() ==> {
                let q = #[trigger] failure_starts(s, p)[i];
                &&& p <= q < s.len()
                &&& failure_at(s, q) is Some
            },
    decreases s.len() - p,
{
    lemma_skip_trivia(s, p);
    let q = skip_trivia(s, p);
    if q < s.len() {
        lemma_lexeme_len(s, q);
        lemma_starts(s, q + lexeme_len(s, q));
        let rest_t = token_starts(s, q + lexeme_len(s, q));
        let rest_f = failure_starts(s, q + lexeme_len(s, q));
        assert forall|i: int| 0 <= i < token_starts(s, p).len() implies {
            let r = #[trigger] token_starts(s, p)[i];
            p <= r < s.len() && failure_at(s, r) is None
        } by {
            if failure_at(s, q) is None && i > 0 {
                assert(token_starts(s, p)[i] == rest_t[i - 1]);
            }
        }
        assert forall|i: int| 0 <= i < failure_starts(s, p).len() implies {
            let r = #[trigger] failure_starts(s, p)[i];
            p <= r < s.len() && failure_at(s, r) is Some
        } by {
            if failure_at(s, q) is Some && i > 0 {
                assert(failure_starts(s, p)[i] == rest_f[i - 1]);
            }
        }
    }
}

/// A source of nothing but whitespace and comments scans to the end-of-input
/// token alone, with no failure.
pub proof fn law_trivia_only(
    s: Seq<char>,
    tokens: Seq<(Token, usize)>,
    failures: Seq<CompilationFailure>,
)
    requires
        skip_trivia(s, 0) >= s.len(),
        scan_result(s, tokens, failures),
    ensures
        tokens.len() == 1,
        tokens[0].0 == Token::EndOfInput,
        failures.len() == 0,
{
}

/// Maximal munch: `!`, `=`, `>` or `<` followed by `=` is one two-character
/// operator; followed by anything else, or by nothing, it is the
/// one-character operator.
pub proof fn law_maximal_munch(s: Seq<char>, p: int, t: Token)
    requires
        0 <= p < s.len(),
        is_operator_start(s[p]),
        token_at(s, p, t),
    ensures
        failure_at(s, p) is None,
        p + 1 < s.len() && s[p + 1] == '=' ==> lexeme_len(s, p) == 2 && t == operator_pair(
            s[p],
        ).1,
        !(p + 1 < s.len() && s[p + 1] == '=') ==> lexeme_len(s, p) == 1 && t == operator_pair(
            s[p],
        ).0,
{
}

/// A token takes exactly as many characters as its declared length, and they
/// are its text.
pub proof fn law_token_length(s: Seq<char>, p: int, t: Token)
    requires
        0 <= p < s.len(),
        failure_at(s, p) is None,
        token_at(s, p, t),
    ensures
        t.spec_len() == lexeme_len(s, p),
        t.text() == s.subrange(p, p + lexeme_len(s, p)),
{
    lemma_lexeme_len(s, p);
    lemma_find_from(s, p + 1, '"');
    let n = lexeme_len(s, p);
    if s[p] == '"' {
        assert(t.text() =~= s.subrange(p, p + n));
    } else {
        assert(t.text() =~= s.subrange(p, p + n));
    }
}

/// Every token of a scan, but the last, takes as many characters as its
/// declared length, and they are its text.
pub proof fn law_scan_token_lengths(
    s: Seq<char>,
    tokens: Seq<(Token, usize)>,
    failures: Seq<CompilationFailure>,
)
    requires
        scan_result(s, tokens, failures),
    ensures
        forall|i: int|
            0 <= i < tokens.len() - 1 ==> {
                let p = token_starts(s, 0)[i];
                &&& (#[trigger] tokens[i]).0.spec_len() == lexeme_len(s, p)
                &&& tokens[i].0.text() == s.subrange(p, p + lexeme_len(s, p))
            },
{
    lemma_starts(s, 0);
    assert forall|i: int| 0 <= i < tokens.len() - 1 implies {
        let p = token_starts(s, 0)[i];
        &&& (#[trigger] tokens[i]).0.spec_len() == lexeme_len(s, p)
        &&& tokens[i].0.text() == s.subrange(p, p + lexeme_len(s, p))
    } by {
        let p = token_starts(s, 0)[i];
        law_token_length(s, p, tokens[i].0);
    }
}

/// Scanning the same source twice gives the same tokens, lines and failures.
pub proof fn law_scan_deterministic(
    s: Seq<char>,
    tokens1: Seq<(Token, usize)>,
    failures1: Seq<CompilationFailure>,
    tokens2: Seq<(Token, usize)>,
    failures2: Seq<CompilationFailure>,
)
    requires
        scan_result(s, tokens1, failures1),
        scan_result(s, tokens2, failures2),
    ensures
        tokens1.len() == tokens2.len(),
        forall|i: int|
            0 <= i < tokens1.len() ==> (#[trigger] tokens1[i]).0.same_as(tokens2[i].0)
                && tokens1[i].1 == tokens2[i].1,
        failures1.len() == failures2.len(),
        forall|i: int|
            0 <= i < failures1.len() ==> {
                &&& (#[trigger] failures1[i]).kind == failures2[i].kind
                &&& failures1[i].line_no == failures2[i].line_no
                &&& failures1[i].context@ == failures2[i].context@
                &&& failures1[i].msg@ == failures2[i].msg@
            },
{
    let ts = token_starts(s, 0);
    let fs = failure_starts(s, 0);
    assert forall|i: int| 0 <= i < tokens1.len() implies (#[trigger] tokens1[i]).0.same_as(
        tokens2[i].0,
    ) && tokens1[i].1 == tokens2[i].1 by {
        if i < ts.len() {
            assert(token_at(s, ts[i], tokens1[i].0));
            assert(token_at(s, ts[i], tokens2[i].0));
        }
    }
    assert forall|i: int| 0 <= i < failures1.len() implies {
        &&& (#[trigger] failures1[i]).kind == failures2[i].kind
        &&& failures1[i].line_no == failures2[i].line_no
        &&& failures1[i].context@ == failures2[i].context@
        &&& failures1[i].msg@ == failures2[i].msg@
    } by {
        assert(failure_report(s, fs[i], failures1[i]));
        assert(failure_report(s, fs[i], failures2[i]));
    }
}

} // verus!
