//! The token model: token categories, literal values and the token record.

use vstd::prelude::*;
use vstd::string::StringExecFns;

verus! {

/// The closed set of token categories.
#[derive(Clone, Copy, Debug, PartialEq, Eq, Structural)]
pub enum TokenType {
    // Single-character tokens.
    LeftParen,
    RightParen,
    LeftBrace,
    RightBrace,
    Comma,
    Dot,
    Minus,
    Plus,
    Semicolon,
    Slash,
    Star,
    // One or two character tokens.
    Bang,
    BangEqual,
    Equal,
    EqualEqual,
    Greater,
    GreaterEqual,
    Less,
    LessEqual,
    // Literals.
    Identifier,
    String_,
    Number,
    // Keywords.
    And,
    Class,
    Else,
    False,
    Fun,
    For,
    If,
    Nil,
    Or,
    Print,
    Return,
    Super,
    This,
    True,
    Var,
    While,
    // End of input.
    Eof,
}

impl TokenType {
    /// The name of the category as text.
    pub open spec fn name_of(self) -> Seq<char> {
        match self {
            TokenType::LeftParen => "LeftParen"@,
            TokenType::RightParen => "RightParen"@,
            TokenType::LeftBrace => "LeftBrace"@,
            TokenType::RightBrace => "RightBrace"@,
            TokenType::Comma => "Comma"@,
            TokenType::Dot => "Dot"@,
            TokenType::Minus => "Minus"@,
            TokenType::Plus => "Plus"@,
            TokenType::Semicolon => "Semicolon"@,
            TokenType::Slash => "Slash"@,
            TokenType::Star => "Star"@,
            TokenType::Bang => "Bang"@,
            TokenType::BangEqual => "BangEqual"@,
            TokenType::Equal => "Equal"@,
            TokenType::EqualEqual => "EqualEqual"@,
            TokenType::Greater => "Greater"@,
            TokenType::GreaterEqual => "GreaterEqual"@,
            TokenType::Less => "Less"@,
            TokenType::LessEqual => "LessEqual"@,
            TokenType::Identifier => "Identifier"@,
            TokenType::String_ => "String_"@,
            TokenType::Number => "Number"@,
            TokenType::And => "And"@,
            TokenType::Class => "Class"@,
            TokenType::Else => "Else"@,
            TokenType::False => "False"@,
            TokenType::Fun => "Fun"@,
            TokenType::For => "For"@,
            TokenType::If => "If"@,
            TokenType::Nil => "Nil"@,
            TokenType::Or => "Or"@,
            TokenType::Print => "Print"@,
            TokenType::Return => "Return"@,
            TokenType::Super => "Super"@,
            TokenType::This => "This"@,
            TokenType::True => "True"@,
            TokenType::Var => "Var"@,
            TokenType::While => "While"@,
            TokenType::Eof => "Eof"@,
        }
    }

    /// The name of the category.
    pub fn name(self) -> (name: &'static str)
        ensures
            name@ == self.name_of(),
    {
        match self {
            TokenType::LeftParen => "LeftParen",
            TokenType::RightParen => "RightParen",
            TokenType::LeftBrace => "LeftBrace",
            TokenType::RightBrace => "RightBrace",
            TokenType::Comma => "Comma",
            TokenType::Dot => "Dot",
            TokenType::Minus => "Minus",
            TokenType::Plus => "Plus",
            TokenType::Semicolon => "Semicolon",
            TokenType::Slash => "Slash",
            TokenType::Star => "Star",
            TokenType::Bang => "Bang",
            TokenType::BangEqual => "BangEqual",
            TokenType::Equal => "Equal",
            TokenType::EqualEqual => "EqualEqual",
            TokenType::Greater => "Greater",
            TokenType::GreaterEqual => "GreaterEqual",
            TokenType::Less => "Less",
            TokenType::LessEqual => "LessEqual",
            TokenType::Identifier => "Identifier",
            TokenType::String_ => "String_",
            TokenType::Number => "Number",
            TokenType::And => "And",
            TokenType::Class => "Class",
            TokenType::Else => "Else",
            TokenType::False => "False",
            TokenType::Fun => "Fun",
            TokenType::For => "For",
            TokenType::If => "If",
            TokenType::Nil => "Nil",
            TokenType::Or => "Or",
            TokenType::Print => "Print",
            TokenType::Return => "Return",
            TokenType::Super => "Super",
            TokenType::This => "This",
            TokenType::True => "True",
            TokenType::Var => "Var",
            TokenType::While => "While",
            TokenType::Eof => "Eof",
        }
    }
}

/// The value carried by a literal token.
///
/// A number is kept as its decimal text: a run of digits, optionally followed
/// by a point and a second run of digits.
#[derive(Clone, Debug, PartialEq, Eq)]
pub enum Literal {
    String_(String),
    Number(String),
    Bool(bool),
    Nil,
}

/// The mathematical value of a [`Literal`].
pub enum LiteralView {
    String_(Seq<char>),
    Number(Seq<char>),
    Bool(bool),
    Nil,
}

impl View for Literal {
    type V = LiteralView;

    open spec fn view(&self) -> LiteralView {
        match *self {
            Literal::String_(s) => LiteralView::String_(s@),
            Literal::Number(s) => LiteralView::Number(s@),
            Literal::Bool(b) => LiteralView::Bool(b),
            Literal::Nil => LiteralView::Nil,
        }
    }
}

/// The view of an optional literal.
pub open spec fn literal_view(literal: Option<Literal>) -> Option<LiteralView> {
    match literal {
        Some(l) => Some(l@),
        None => None,
    }
}

/// How an optional literal is written out: `None`, or the literal's kind and
/// value inside `Some(..)`, a string between double quotes.
pub open spec fn rendered_literal(literal: Option<LiteralView>) -> Seq<char> {
    match literal {
        None => "None"@,
        Some(LiteralView::String_(text)) => "Some(String_(\""@ + text + "\"))"@,
        Some(LiteralView::Number(text)) => "Some(Number("@ + text + "))"@,
        Some(LiteralView::Bool(true)) => "Some(Bool(true))"@,
        Some(LiteralView::Bool(false)) => "Some(Bool(false))"@,
        Some(LiteralView::Nil) => "Some(Nil)"@,
    }
}

/// How a token is written out: the name of its category, its lexeme and its
/// literal, with one space between them.
pub open spec fn rendered_token(token: TokenView) -> Seq<char> {
    token.type_.name_of() + " "@ + token.lexeme + " "@ + rendered_literal(token.literal)
}

/// One lexeme of the source, with its category, literal value and line.
#[derive(Clone, Debug, PartialEq, Eq)]
pub struct Token {
    type_: TokenType,
    lexeme: String,
    literal: Option<Literal>,
    line: usize,
}

/// The mathematical value of a [`Token`].
pub struct TokenView {
    pub type_: TokenType,
    pub lexeme: Seq<char>,
    pub literal: Option<LiteralView>,
    pub line: int,
}

impl View for Token {
    type V = TokenView;

    closed spec fn view(&self) -> TokenView {
        TokenView {
            type_: self.type_,
            lexeme: self.lexeme@,
            literal: literal_view(self.literal),
            line: self.line as int,
        }
    }
}

/// The views of a sequence of tokens.
pub open spec fn token_views(tokens: Seq<Token>) -> Seq<TokenView> {
    tokens.map_values(|t: Token| t@)
}

impl Token {
    /// Builds a token from its four parts. The lexeme is copied.
    pub fn new(type_: TokenType, lexeme: &str, literal: Option<Literal>, line: usize) -> (token:
        Self)
        ensures
            token@ == (TokenView {
                type_,
                lexeme: lexeme@,
                literal: literal_view(literal),
                line: line as int,
            }),
    {
        Self { type_, lexeme: lexeme.to_owned(), literal, line }
    }

    /// The category of the token.
    pub fn token_type(&self) -> (type_: TokenType)
        ensures
            type_ == self@.type_,
    {
        self.type_
    }

    /// The text of the source that the token was made from.
    pub fn lexeme(&self) -> (lexeme: &str)
        ensures
            lexeme@ == self@.lexeme,
    {
        self.lexeme.as_str()
    }

    /// The literal value of the token, if it has one.
    pub fn literal(&self) -> (literal: &Option<Literal>)
        ensures
            literal_view(*literal) == self@.literal,
    {
        &self.literal
    }

    /// The line of the token's first character, counted from one.
    pub fn line(&self) -> (line: usize)
        ensures
            line as int == self@.line,
    {
        self.line
    }

    /// Writes the token out: category, lexeme and literal.
    pub fn to_string(&self) -> (text: String)
        ensures
            text@ == rendered_token(self@),
    {
        let mut text = String::from_str(self.type_.name());
        text.append(" ");
        text.append(self.lexeme.as_str());
        text.append(" ");
        match &self.literal {
            None => {
                text.append("None");
            },
            Some(Literal::String_(value)) => {
                let ghost head = text@;
                text.append("Some(String_(\"");
                text.append(value.as_str());
                text.append("\"))");
                assert(text@ =~= head + ("Some(String_(\""@ + value@ + "\"))"@));
            },
            Some(Literal::Number(value)) => {
                let ghost head = text@;
                text.append("Some(Number(");
                text.append(value.as_str());
                text.append("))");
                assert(text@ =~= head + ("Some(Number("@ + value@ + "))"@));
            },
            Some(Literal::Bool(true)) => {
                text.append("Some(Bool(true))");
            },
            Some(Literal::Bool(false)) => {
                text.append("Some(Bool(false))");
            },
            Some(Literal::Nil) => {
                text.append("Some(Nil)");
            },
        }
        text
    }
}

} // verus!
