use vstd::prelude::*;

verus! {

/// One lexeme of the language, classified.
#[derive(Debug, Clone, PartialEq, Eq)]
pub enum Token {
    LeftParen,
    RightParen,
    LeftBrace,
    RightBrace,
    Comma,
    Dot,
    Minus,
    Plus,
    Semicolon,
    Slash,
    Star,
    Bang,
    BangEqual,
    Equal,
    EqualEqual,
    Greater,
    GreaterEqual,
    Less,
    LessEqual,
    Identifier(String),
    String(String),
    Number(String),
    And,
    Class,
    Else,
    False,
    Fun,
    For,
    If,
    Nil,
    Or,
    Print,
    Return,
    Super,
    This,
    True,
    Var,
    While,
    EndOfInput,
}

impl Token {
    /// The source text this token stands for: for a string literal, its
    /// contents between the two quotes.
    pub open spec fn text(self) -> Seq<char> {
        match self {
            Token::LeftParen => seq!['('],
            Token::RightParen => seq![')'],
            Token::LeftBrace => seq!['{'],
            Token::RightBrace => seq!['}'],
            Token::Comma => seq![','],
            Token::Dot => seq!['.'],
            Token::Minus => seq!['-'],
            Token::Plus => seq!['+'],
            Token::Semicolon => seq![';'],
            Token::Slash => seq!['/'],
            Token::Star => seq!['*'],
            Token::Bang => seq!['!'],
            Token::BangEqual => seq!['!', '='],
            Token::Equal => seq!['='],
            Token::EqualEqual => seq!['=', '='],
            Token::Greater => seq!['>'],
            Token::GreaterEqual => seq!['>', '='],
            Token::Less => seq!['<'],
            Token::LessEqual => seq!['<', '='],
            Token::Identifier(s) => s@,
            Token::String(s) => seq!['"'] + s@ + seq!['"'],
            Token::Number(s) => s@,
            Token::And => seq!['a', 'n', 'd'],
            Token::Class => seq!['c', 'l', 'a', 's', 's'],
            Token::Else => seq!['e', 'l', 's', 'e'],
            Token::False => seq!['f', 'a', 'l', 's', 'e'],
            Token::Fun => seq!['f', 'u', 'n'],
            Token::For => seq!['f', 'o', 'r'],
            Token::If => seq!['i', 'f'],
            Token::Nil => seq!['n', 'i', 'l'],
            Token::Or => seq!['o', 'r'],
            Token::Print => seq!['p', 'r', 'i', 'n', 't'],
            Token::Return => seq!['r', 'e', 't', 'u', 'r', 'n'],
            Token::Super => seq!['s', 'u', 'p', 'e', 'r'],
            Token::This => seq!['t', 'h', 'i', 's'],
            Token::True => seq!['t', 'r', 'u', 'e'],
            Token::Var => seq!['v', 'a', 'r'],
            Token::While => seq!['w', 'h', 'i', 'l', 'e'],
            Token::EndOfInput => seq![],
        }
    }

    /// The two tokens are the same: same variant, and the same text where
    /// the variant carries one.
    pub open spec fn same_as(self, other: Token) -> bool {
        match (self, other) {
            (Token::Identifier(a), Token::Identifier(b)) => a@ == b@,
            (Token::String(a), Token::String(b)) => a@ == b@,
            (Token::Number(a), Token::Number(b)) => a@ == b@,
            _ => self == other,
        }
    }

    /// Number of source characters the token occupies.
    pub open spec fn spec_len(self) -> nat {
        self.text().len()
    }

    /// Number of source characters the token occupies.
    pub fn len(&self) -> (r: usize)
        requires
            self.spec_len() <= usize::MAX,
        ensures
            r == self.spec_len(),
    {
        match self {
            Token::Identifier(s) => s.as_str().unicode_len(),
            Token::String(s) => s.as_str().unicode_len() + 2,
            Token::Number(s) => s.as_str().unicode_len(),
            Token::BangEqual | Token::EqualEqual | Token::GreaterEqual | Token::LessEqual => 2,
            Token::And | Token::Fun | Token::For | Token::Nil | Token::Var => 3,
            Token::Else | Token::This | Token::True => 4,
            Token::Class | Token::False | Token::Print | Token::Super | Token::While => 5,
            Token::Return => 6,
            Token::If | Token::Or => 2,
            Token::EndOfInput => 0,
            _ => 1,
        }
    }
}

} // verus!
