use lox::{scan_tokens, CompilationFailure, FailureKind, Scanner, Token};

fn tokens_of(src: &str) -> Vec<Token> {
    scan_tokens(src.to_string()).0.into_iter().map(|(t, _)| t).collect()
}

fn ident(s: &str) -> Token {
    Token::Identifier(s.to_string())
}

fn num(s: &str) -> Token {
    Token::Number(s.to_string())
}

#[test]
fn var_declaration() {
    let (tokens, failures) = scan_tokens("var x = 10;".to_string());
    let kinds: Vec<Token> = tokens.into_iter().map(|(t, _)| t).collect();
    assert_eq!(
        kinds,
        vec![Token::Var, ident("x"), Token::Equal, num("10"), Token::Semicolon, Token::EndOfInput]
    );
    assert!(failures.is_empty());
}

#[test]
fn string_plus_number() {
    let (tokens, failures) = scan_tokens("\"hello\" + 1".to_string());
    let kinds: Vec<Token> = tokens.into_iter().map(|(t, _)| t).collect();
    assert_eq!(
        kinds,
        vec![Token::String("hello".to_string()), Token::Plus, num("1"), Token::EndOfInput]
    );
    assert!(failures.is_empty());
}

#[test]
fn unterminated_string() {
    let (tokens, failures) = scan_tokens("\"unterminated".to_string());
    assert_eq!(tokens, vec![(Token::EndOfInput, 1)]);
    assert_eq!(failures.len(), 1);
    assert_eq!(failures[0].kind, FailureKind::UnterminatedString);
    assert_eq!(failures[0].line_no, 1);
    assert_eq!(failures[0].context, "\"unterminated");
    assert_eq!(failures[0].msg, "Unterminated string.");
}

#[test]
fn unterminated_string_reports_opening_line() {
    let (tokens, failures) = scan_tokens("x\n\"abc\ndef\n".to_string());
    assert_eq!(tokens, vec![(ident("x"), 1), (Token::EndOfInput, 4)]);
    assert_eq!(failures.len(), 1);
    assert_eq!(failures[0].line_no, 2);
}

#[test]
fn number_then_trailing_dot() {
    assert_eq!(tokens_of("10."), vec![num("10"), Token::Dot, Token::EndOfInput]);
    let (_, failures) = scan_tokens("10.".to_string());
    assert!(failures.is_empty());
}

#[test]
fn number_with_two_dots() {
    assert_eq!(
        tokens_of("1.2.3"),
        vec![num("1.2"), Token::Dot, num("3"), Token::EndOfInput]
    );
}

#[test]
fn number_member_access() {
    assert_eq!(
        tokens_of("10.abs"),
        vec![num("10"), Token::Dot, ident("abs"), Token::EndOfInput]
    );
}

#[test]
fn comment_then_declaration() {
    let (tokens, failures) = scan_tokens("// comment\nvar y = 2;".to_string());
    assert_eq!(
        tokens,
        vec![
            (Token::Var, 2),
            (ident("y"), 2),
            (Token::Equal, 2),
            (num("2"), 2),
            (Token::Semicolon, 2),
            (Token::EndOfInput, 2),
        ]
    );
    assert!(failures.is_empty());
}

#[test]
fn trivia_only_gives_end_of_input() {
    for src in ["", "   ", " \t\r\n\n", "// only a comment", "// a\n  // b\n\t"] {
        let (tokens, failures) = scan_tokens(src.to_string());
        assert_eq!(tokens.len(), 1);
        assert_eq!(tokens[0].0, Token::EndOfInput);
        assert!(failures.is_empty());
    }
}

#[test]
fn end_of_input_line_counts_newlines() {
    let (tokens, _) = scan_tokens("\n\n// c\n".to_string());
    assert_eq!(tokens, vec![(Token::EndOfInput, 4)]);
}

#[test]
fn maximal_munch_operators() {
    assert_eq!(tokens_of("!="), vec![Token::BangEqual, Token::EndOfInput]);
    assert_eq!(tokens_of("!x"), vec![Token::Bang, ident("x"), Token::EndOfInput]);
    assert_eq!(tokens_of("! ="), vec![Token::Bang, Token::Equal, Token::EndOfInput]);
    assert_eq!(tokens_of("=="), vec![Token::EqualEqual, Token::EndOfInput]);
    assert_eq!(tokens_of("<="), vec![Token::LessEqual, Token::EndOfInput]);
    assert_eq!(tokens_of(">="), vec![Token::GreaterEqual, Token::EndOfInput]);
    assert_eq!(tokens_of("<"), vec![Token::Less, Token::EndOfInput]);
    assert_eq!(tokens_of(">"), vec![Token::Greater, Token::EndOfInput]);
    assert_eq!(tokens_of("!"), vec![Token::Bang, Token::EndOfInput]);
    assert_eq!(
        tokens_of("===!"),
        vec![Token::EqualEqual, Token::Equal, Token::Bang, Token::EndOfInput]
    );
}

#[test]
fn slash_and_comment() {
    assert_eq!(
        tokens_of("a / b // c / d\ne"),
        vec![ident("a"), Token::Slash, ident("b"), ident("e"), Token::EndOfInput]
    );
}

#[test]
fn punctuation() {
    assert_eq!(
        tokens_of("(){},.-+;*"),
        vec![
            Token::LeftParen,
            Token::RightParen,
            Token::LeftBrace,
            Token::RightBrace,
            Token::Comma,
            Token::Dot,
            Token::Minus,
            Token::Plus,
            Token::Semicolon,
            Token::Star,
            Token::EndOfInput,
        ]
    );
}

#[test]
fn all_keywords() {
    assert_eq!(
        tokens_of("and class else false fun for if nil or print return super this true var while"),
        vec![
            Token::And,
            Token::Class,
            Token::Else,
            Token::False,
            Token::Fun,
            Token::For,
            Token::If,
            Token::Nil,
            Token::Or,
            Token::Print,
            Token::Return,
            Token::Super,
            Token::This,
            Token::True,
            Token::Var,
            Token::While,
            Token::EndOfInput,
        ]
    );
}

#[test]
fn keyword_prefix_is_identifier() {
    assert_eq!(
        tokens_of("andy classy _if If fun1"),
        vec![ident("andy"), ident("classy"), ident("_if"), ident("If"), ident("fun1"), Token::EndOfInput]
    );
}

#[test]
fn identifier_ends_at_other_character() {
    assert_eq!(
        tokens_of("foo(bar)"),
        vec![ident("foo"), Token::LeftParen, ident("bar"), Token::RightParen, Token::EndOfInput]
    );
}

#[test]
fn multi_error_accumulation() {
    let (tokens, failures) = scan_tokens("1 + @ 2 + #".to_string());
    let kinds: Vec<Token> = tokens.into_iter().map(|(t, _)| t).collect();
    assert_eq!(
        kinds,
        vec![num("1"), Token::Plus, num("2"), Token::Plus, Token::EndOfInput]
    );
    assert_eq!(failures.len(), 2);
    assert_eq!(failures[0].context, "@");
    assert_eq!(failures[1].context, "#");
    for f in &failures {
        assert_eq!(f.kind, FailureKind::UnexpectedCharacter);
        assert_eq!(f.line_no, 1);
        assert_eq!(f.msg, "Unexpected character.");
    }
}

#[test]
fn non_ascii_character_is_unexpected() {
    let (tokens, failures) = scan_tokens("ab\u{e9}c".to_string());
    assert_eq!(tokens, vec![(ident("ab"), 1), (ident("c"), 1), (Token::EndOfInput, 1)]);
    assert_eq!(failures.len(), 1);
    assert_eq!(failures[0].context, "\u{e9}");
}

#[test]
fn multiline_string_advances_line() {
    let (tokens, failures) = scan_tokens("\"a\nb\" x\ny".to_string());
    assert_eq!(
        tokens,
        vec![
            (Token::String("a\nb".to_string()), 1),
            (ident("x"), 2),
            (ident("y"), 3),
            (Token::EndOfInput, 3),
        ]
    );
    assert!(failures.is_empty());
}

#[test]
fn failure_line_numbers() {
    let (_, failures) = scan_tokens("a\nb @\n\n#".to_string());
    let lines: Vec<usize> = failures.iter().map(|f: &CompilationFailure| f.line_no).collect();
    assert_eq!(lines, vec![2, 4]);
}

#[test]
fn rescanning_is_identical() {
    let src = "var s = \"x\ny\"; // c\n if (a >= 1.5) { print s; } @ \"open";
    let first = scan_tokens(src.to_string());
    let second = scan_tokens(src.to_string());
    assert_eq!(first, second);
}

#[test]
fn token_lengths_match_source() {
    let src = "while (x <= 12.75) { s = \"h\u{e9}llo\" + name_1; }";
    let (tokens, failures) = scan_tokens(src.to_string());
    assert!(failures.is_empty());
    let chars: Vec<char> = src.chars().collect();
    let mut pos = 0usize;
    for (t, _) in &tokens {
        if *t == Token::EndOfInput {
            assert_eq!(t.len(), 0);
            break;
        }
        while chars[pos] == ' ' {
            pos += 1;
        }
        let n = t.len();
        let lexeme: String = chars[pos..pos + n].iter().collect();
        let expected = match t {
            Token::String(s) => format!("\"{}\"", s),
            Token::Identifier(s) | Token::Number(s) => s.clone(),
            _ => lexeme.clone(),
        };
        assert_eq!(lexeme, expected);
        pos += n;
    }
    assert_eq!(pos, chars.len());
}

#[test]
fn declared_lengths() {
    assert_eq!(Token::String("hello".to_string()).len(), 7);
    assert_eq!(Token::String(String::new()).len(), 2);
    assert_eq!(ident("abc").len(), 3);
    assert_eq!(num("12.5").len(), 4);
    assert_eq!(Token::Return.len(), 6);
    assert_eq!(Token::If.len(), 2);
    assert_eq!(Token::BangEqual.len(), 2);
    assert_eq!(Token::Star.len(), 1);
    assert_eq!(Token::EndOfInput.len(), 0);
}

#[test]
fn scanner_stops_after_end_of_input() {
    let mut scanner = Scanner::new("x".to_string());
    assert_eq!(scanner.scan_token(), Some(Ok((ident("x"), 1))));
    assert_eq!(scanner.scan_token(), Some(Ok((Token::EndOfInput, 1))));
    assert_eq!(scanner.scan_token(), None);
    assert_eq!(scanner.scan_token(), None);
}

#[test]
fn scanner_reports_failure_then_continues() {
    let mut scanner = Scanner::new("# ;".to_string());
    match scanner.scan_token() {
        Some(Err(f)) => {
            assert_eq!(f.kind, FailureKind::UnexpectedCharacter);
            assert_eq!(f.context, "#");
        }
        other => panic!("expected a failure, got {:?}", other),
    }
    assert_eq!(scanner.scan_token(), Some(Ok((Token::Semicolon, 1))));
    assert_eq!(scanner.scan_token(), Some(Ok((Token::EndOfInput, 1))));
}
