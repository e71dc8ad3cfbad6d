//! The tokens of the language.
use vstd::prelude::*;

verus! {

#[derive(Debug, PartialEq)]
pub enum Token {
    Let,
    Be,
    Is,
    Show,
    True,
    False,
    And,
    Or,
    Not,
    If,
    Then,
    Else,
    ElseIf,
    While,
    Repeat,
    Times,
    Comma,
    IsNot,
    Identifier(String),
    /// A number: the bits of the double, and the text it is shown as.
    Number(u64, String),
    String(String),
    Plus,
    Minus,
    Multiply,
    Divide,
    Modulo,
    Assign,
    Equal,
    NotEqual,
    GreaterThan,
    LessThan,
    GreaterEqual,
    LessEqual,
    LeftParen,
    RightParen,
    Newline,
    Eof,
}

pub enum TokenView {
    Let,
    Be,
    Is,
    Show,
    True,
    False,
    And,
    Or,
    Not,
    If,
    Then,
    Else,
    ElseIf,
    While,
    Repeat,
    Times,
    Comma,
    IsNot,
    Identifier(Seq<char>),
    Number(u64, Seq<char>),
    String(Seq<char>),
    Plus,
    Minus,
    Multiply,
    Divide,
    Modulo,
    Assign,
    Equal,
    NotEqual,
    GreaterThan,
    LessThan,
    GreaterEqual,
    LessEqual,
    LeftParen,
    RightParen,
    Newline,
    Eof,
}

impl View for Token {
    type V = TokenView;

    open spec fn view(&self) -> TokenView {
        match self {
            Token::Let => TokenView::Let,
            Token::Be => TokenView::Be,
            Token::Is => TokenView::Is,
            Token::Show => TokenView::Show,
            Token::True => TokenView::True,
            Token::False => TokenView::False,
            Token::And => TokenView::And,
            Token::Or => TokenView::Or,
            Token::Not => TokenView::Not,
            Token::If => TokenView::If,
            Token::Then => TokenView::Then,
            Token::Else => TokenView::Else,
            Token::ElseIf => TokenView::ElseIf,
            Token::While => TokenView::While,
            Token::Repeat => TokenView::Repeat,
            Token::Times => TokenView::Times,
            Token::Comma => TokenView::Comma,
            Token::IsNot => TokenView::IsNot,
            Token::Identifier(name) => TokenView::Identifier(name@),
            Token::Number(bits, text) => TokenView::Number(*bits, text@),
            Token::String(s) => TokenView::String(s@),
            Token::Plus => TokenView::Plus,
            Token::Minus => TokenView::Minus,
            Token::Multiply => TokenView::Multiply,
            Token::Divide => TokenView::Divide,
            Token::Modulo => TokenView::Modulo,
            Token::Assign => TokenView::Assign,
            Token::Equal => TokenView::Equal,
            Token::NotEqual => TokenView::NotEqual,
            Token::GreaterThan => TokenView::GreaterThan,
            Token::LessThan => TokenView::LessThan,
            Token::GreaterEqual => TokenView::GreaterEqual,
            Token::LessEqual => TokenView::LessEqual,
            Token::LeftParen => TokenView::LeftParen,
            Token::RightParen => TokenView::RightParen,
            Token::Newline => TokenView::Newline,
            Token::Eof => TokenView::Eof,
        }
    }
}

/// The views of a sequence of tokens, one for one.
pub open spec fn token_views(tokens: Seq<Token>) -> Seq<TokenView> {
    tokens.map_values(|token: Token| token@)
}

impl TokenView {
    /// The number of the token's kind: two tokens are of one kind when
    /// they differ in their payload only.
    pub open spec fn kind(self) -> int {
        match self {
            TokenView::Let => 0,
            TokenView::Be => 1,
            TokenView::Is => 2,
            TokenView::Show => 3,
            TokenView::True => 4,
            TokenView::False => 5,
            TokenView::And => 6,
            TokenView::Or => 7,
            TokenView::Not => 8,
            TokenView::If => 9,
            TokenView::Then => 10,
            TokenView::Else => 11,
            TokenView::ElseIf => 12,
            TokenView::While => 13,
            TokenView::Repeat => 14,
            TokenView::Times => 15,
            TokenView::Comma => 16,
            TokenView::IsNot => 17,
            TokenView::Identifier(_) => 18,
            TokenView::Number(_, _) => 19,
            TokenView::String(_) => 20,
            TokenView::Plus => 21,
            TokenView::Minus => 22,
            TokenView::Multiply => 23,
            TokenView::Divide => 24,
            TokenView::Modulo => 25,
            TokenView::Assign => 26,
            TokenView::Equal => 27,
            TokenView::NotEqual => 28,
            TokenView::GreaterThan => 29,
            TokenView::LessThan => 30,
            TokenView::GreaterEqual => 31,
            TokenView::LessEqual => 32,
            TokenView::LeftParen => 33,
            TokenView::RightParen => 34,
            TokenView::Newline => 35,
            TokenView::Eof => 36,
        }
    }

    /// The token as it is shown in messages.
    pub open spec fn to_text(self) -> Seq<char> {
        match self {
            TokenView::Let => "let"@,
            TokenView::Be => "be"@,
            TokenView::Is => "is"@,
            TokenView::Show => "show"@,
            TokenView::True => "true"@,
            TokenView::False => "false"@,
            TokenView::And => "and"@,
            TokenView::Or => "or"@,
            TokenView::Not => "not"@,
            TokenView::If => "if"@,
            TokenView::Then => "then"@,
            TokenView::Else => "else"@,
            TokenView::ElseIf => "else if"@,
            TokenView::While => "while"@,
            TokenView::Repeat => "repeat"@,
            TokenView::Times => "times"@,
            TokenView::Comma => ","@,
            TokenView::IsNot => "is not"@,
            TokenView::Identifier(name) => name,
            TokenView::Number(_, text) => text,
            TokenView::String(s) => "\""@ + s + "\""@,
            TokenView::Plus => "+"@,
            TokenView::Minus => "-"@,
            TokenView::Multiply => "*"@,
            TokenView::Divide => "/"@,
            TokenView::Modulo => "%"@,
            TokenView::Assign => "="@,
            TokenView::Equal => "=="@,
            TokenView::NotEqual => "!="@,
            TokenView::GreaterThan => ">"@,
            TokenView::LessThan => "<"@,
            TokenView::GreaterEqual => ">="@,
            TokenView::LessEqual => "<="@,
            TokenView::LeftParen => "("@,
            TokenView::RightParen => ")"@,
            TokenView::Newline => "\\n"@,
            TokenView::Eof => "EOF"@,
        }
    }
}

impl Token {
    /// The number of the token's kind.
    pub fn kind(&self) -> (kind: u8)
        ensures
            kind == self@.kind(),
    {
        match self {
            Token::Let => 0,
            Token::Be => 1,
            Token::Is => 2,
            Token::Show => 3,
            Token::True => 4,
            Token::False => 5,
            Token::And => 6,
            Token::Or => 7,
            Token::Not => 8,
            Token::If => 9,
            Token::Then => 10,
            Token::Else => 11,
            Token::ElseIf => 12,
            Token::While => 13,
            Token::Repeat => 14,
            Token::Times => 15,
            Token::Comma => 16,
            Token::IsNot => 17,
            Token::Identifier(_) => 18,
            Token::Number(_, _) => 19,
            Token::String(_) => 20,
            Token::Plus => 21,
            Token::Minus => 22,
            Token::Multiply => 23,
            Token::Divide => 24,
            Token::Modulo => 25,
            Token::Assign => 26,
            Token::Equal => 27,
            Token::NotEqual => 28,
            Token::GreaterThan => 29,
            Token::LessThan => 30,
            Token::GreaterEqual => 31,
            Token::LessEqual => 32,
            Token::LeftParen => 33,
            Token::RightParen => 34,
            Token::Newline => 35,
            Token::Eof => 36,
        }
    }

    /// The token as it is shown in messages.
    pub fn to_string(&self) -> (s: String)
        ensures
            s@ == self@.to_text(),
    {
        match self {
            Token::Let => String::from_str("let"),
            Token::Be => String::from_str("be"),
            Token::Is => String::from_str("is"),
            Token::Show => String::from_str("show"),
            Token::True => String::from_str("true"),
            Token::False => String::from_str("false"),
            Token::And => String::from_str("and"),
            Token::Or => String::from_str("or"),
            Token::Not => String::from_str("not"),
            Token::If => String::from_str("if"),
            Token::Then => String::from_str("then"),
            Token::Else => String::from_str("else"),
            Token::ElseIf => String::from_str("else if"),
            Token::While => String::from_str("while"),
            Token::Repeat => String::from_str("repeat"),
            Token::Times => String::from_str("times"),
            Token::Comma => String::from_str(","),
            Token::IsNot => String::from_str("is not"),
            Token::Identifier(name) => name.clone(),
            Token::Number(_, text) => text.clone(),
            Token::String(s) => {
                let mut quoted = String::from_str("\"");
                quoted.append(s.as_str());
                quoted.append("\"");
                quoted
            },
            Token::Plus => String::from_str("+"),
            Token::Minus => String::from_str("-"),
            Token::Multiply => String::from_str("*"),
            Token::Divide => String::from_str("/"),
            Token::Modulo => String::from_str("%"),
            Token::Assign => String::from_str("="),
            Token::Equal => String::from_str("=="),
            Token::NotEqual => String::from_str("!="),
            Token::GreaterThan => String::from_str(">"),
            Token::LessThan => String::from_str("<"),
            Token::GreaterEqual => String::from_str(">="),
            Token::LessEqual => String::from_str("<="),
            Token::LeftParen => String::from_str("("),
            Token::RightParen => String::from_str(")"),
            Token::Newline => String::from_str("\\n"),
            Token::Eof => String::from_str("EOF"),
        }
    }
}

impl Clone for Token {
    fn clone(&self) -> (copy: Token)
        ensures
            copy == *self,
    {
        match self {
            Token::Let => Token::Let,
            Token::Be => Token::Be,
            Token::Is => Token::Is,
            Token::Show => Token::Show,
            Token::True => Token::True,
            Token::False => Token::False,
            Token::And => Token::And,
            Token::Or => Token::Or,
            Token::Not => Token::Not,
            Token::If => Token::If,
            Token::Then => Token::Then,
            Token::Else => Token::Else,
            Token::ElseIf => Token::ElseIf,
            Token::While => Token::While,
            Token::Repeat => Token::Repeat,
            Token::Times => Token::Times,
            Token::Comma => Token::Comma,
            Token::IsNot => Token::IsNot,
            Token::Identifier(name) => Token::Identifier(name.clone()),
            Token::Number(bits, text) => Token::Number(*bits, text.clone()),
            Token::String(s) => Token::String(s.clone()),
            Token::Plus => Token::Plus,
            Token::Minus => Token::Minus,
            Token::Multiply => Token::Multiply,
            Token::Divide => Token::Divide,
            Token::Modulo => Token::Modulo,
            Token::Assign => Token::Assign,
            Token::Equal => Token::Equal,
            Token::NotEqual => Token::NotEqual,
            Token::GreaterThan => Token::GreaterThan,
            Token::LessThan => Token::LessThan,
            Token::GreaterEqual => Token::GreaterEqual,
            Token::LessEqual => Token::LessEqual,
            Token::LeftParen => Token::LeftParen,
            Token::RightParen => Token::RightParen,
            Token::Newline => Token::Newline,
            Token::Eof => Token::Eof,
        }
    }
}

} // verus!
