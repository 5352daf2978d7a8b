//! The lexical grammar, stated over sequences of characters.
//!
//! A source text is cut into consecutive pieces. Each piece is a lexeme that
//! becomes a token, a run that is skipped (blanks and comments), or a run that
//! is rejected with a diagnostic. The token sequence of a source is read off
//! its pieces, followed by the end-of-input marker.

use crate::token::{LiteralView, TokenType, TokenView};
use vstd::prelude::*;

verus! {

/// The classes of characters whose maximal runs the grammar speaks of.
pub enum CharClass {
    /// An ASCII digit.
    Digit,
    /// An ASCII letter, an ASCII digit or an underscore.
    Word,
    /// Anything but a line feed.
    NotNewline,
    /// Anything but a double quote.
    NotQuote,
}

pub open spec fn is_digit(c: char) -> bool {
    '0' <= c <= '9'
}

pub open spec fn is_alpha(c: char) -> bool {
    ||| 'a' <= c <= 'z'
    ||| 'A' <= c <= 'Z'
    ||| c == '_'
}

pub open spec fn is_alphanumeric(c: char) -> bool {
    is_alpha(c) || is_digit(c)
}

pub open spec fn is_blank(c: char) -> bool {
    c == ' ' || c == '\r' || c == '\t' || c == '\n'
}

pub open spec fn in_class(class: CharClass, c: char) -> bool {
    match class {
        CharClass::Digit => is_digit(c),
        CharClass::Word => is_alphanumeric(c),
        CharClass::NotNewline => c != '\n',
        CharClass::NotQuote => c != '"',
    }
}

/// The first position at or after `pos` whose character is not in `class`,
/// or the length of `s` if there is none.
pub open spec fn run_end(s: Seq<char>, pos: int, class: CharClass) -> int
    decreases s.len() - pos,
{
    if 0 <= pos < s.len() && in_class(class, s[pos]) {
        run_end(s, pos + 1, class)
    } else {
        pos
    }
}

/// Whether the character at `pos` exists and is `c`.
pub open spec fn char_at_is(s: Seq<char>, pos: int, c: char) -> bool {
    0 <= pos < s.len() && s[pos] == c
}

/// The number of line feeds in `t`.
pub open spec fn newline_count(t: Seq<char>) -> int
    decreases t.len(),
{
    if t.len() == 0 {
        0
    } else {
        newline_count(t.drop_last()) + if t.last() == '\n' {
            1int
        } else {
            0int
        }
    }
}

/// The 1-based line of position `pos`: one more than the number of line
/// feeds before it.
pub open spec fn line_at(s: Seq<char>, pos: int) -> int {
    1 + newline_count(s.take(pos))
}

/// The category of a character that is a token by itself.
pub open spec fn punctuation(c: char) -> Option<TokenType> {
    if c == '(' {
        Some(TokenType::LeftParen)
    } else if c == ')' {
        Some(TokenType::RightParen)
    } else if c == '{' {
        Some(TokenType::LeftBrace)
    } else if c == '}' {
        Some(TokenType::RightBrace)
    } else if c == ',' {
        Some(TokenType::Comma)
    } else if c == '.' {
        Some(TokenType::Dot)
    } else if c == '-' {
        Some(TokenType::Minus)
    } else if c == '+' {
        Some(TokenType::Plus)
    } else if c == ';' {
        Some(TokenType::Semicolon)
    } else if c == '*' {
        Some(TokenType::Star)
    } else {
        None
    }
}

/// For a character that starts a one-or-two-character operator: the category
/// when `=` follows, and the category when it does not.
pub open spec fn operator(c: char) -> Option<(TokenType, TokenType)> {
    if c == '!' {
        Some((TokenType::BangEqual, TokenType::Bang))
    } else if c == '=' {
        Some((TokenType::EqualEqual, TokenType::Equal))
    } else if c == '<' {
        Some((TokenType::LessEqual, TokenType::Less))
    } else if c == '>' {
        Some((TokenType::GreaterEqual, TokenType::Greater))
    } else {
        None
    }
}

/// The reserved-word table.
pub open spec fn keyword_of(text: Seq<char>) -> Option<TokenType> {
    if text == "and"@ {
        Some(TokenType::And)
    } else if text == "class"@ {
        Some(TokenType::Class)
    } else if text == "else"@ {
        Some(TokenType::Else)
    } else if text == "false"@ {
        Some(TokenType::False)
    } else if text == "for"@ {
        Some(TokenType::For)
    } else if text == "fun"@ {
        Some(TokenType::Fun)
    } else if text == "if"@ {
        Some(TokenType::If)
    } else if text == "nil"@ {
        Some(TokenType::Nil)
    } else if text == "or"@ {
        Some(TokenType::Or)
    } else if text == "print"@ {
        Some(TokenType::Print)
    } else if text == "return"@ {
        Some(TokenType::Return)
    } else if text == "super"@ {
        Some(TokenType::Super)
    } else if text == "this"@ {
        Some(TokenType::This)
    } else if text == "true"@ {
        Some(TokenType::True)
    } else if text == "var"@ {
        Some(TokenType::Var)
    } else if text == "while"@ {
        Some(TokenType::While)
    } else {
        None
    }
}

/// The category of a maximal run of word characters.
pub open spec fn word_type(text: Seq<char>) -> TokenType {
    match keyword_of(text) {
        Some(keyword) => keyword,
        None => TokenType::Identifier,
    }
}

/// Where the number that starts at `pos` ends: after the digits, and after a
/// point and further digits if a point and a digit follow them.
pub open spec fn number_end(s: Seq<char>, pos: int) -> int {
    let whole = run_end(s, pos, CharClass::Digit);
    if char_at_is(s, whole, '.') && whole + 1 < s.len() && is_digit(s[whole + 1]) {
        run_end(s, whole + 1, CharClass::Digit)
    } else {
        whole
    }
}

/// What a piece of the source is.
pub enum PieceKind {
    /// A lexeme that becomes a token of the given category.
    Lexeme(TokenType),
    /// Blank space or a comment.
    Skipped,
    /// A character that starts no lexeme.
    UnexpectedCharacter,
    /// A string that is still open at the end of the source.
    UnterminatedString,
}

/// A piece of the source: the characters from `start` up to `end`.
pub struct Piece {
    pub kind: PieceKind,
    pub start: int,
    pub end: int,
}

/// The piece that starts at `pos`, for `0 <= pos < s.len()`.
pub open spec fn piece_at(s: Seq<char>, pos: int) -> Piece {
    let c = s[pos];
    if punctuation(c) is Some {
        Piece { kind: PieceKind::Lexeme(punctuation(c).unwrap()), start: pos, end: pos + 1 }
    } else if operator(c) is Some {
        if char_at_is(s, pos + 1, '=') {
            Piece { kind: PieceKind::Lexeme(operator(c).unwrap().0), start: pos, end: pos + 2 }
        } else {
            Piece { kind: PieceKind::Lexeme(operator(c).unwrap().1), start: pos, end: pos + 1 }
        }
    } else if c == '/' {
        if char_at_is(s, pos + 1, '/') {
            Piece {
                kind: PieceKind::Skipped,
                start: pos,
                end: run_end(s, pos + 2, CharClass::NotNewline),
            }
        } else {
            Piece { kind: PieceKind::Lexeme(TokenType::Slash), start: pos, end: pos + 1 }
        }
    } else if is_blank(c) {
        Piece { kind: PieceKind::Skipped, start: pos, end: pos + 1 }
    } else if c == '"' {
        let close = run_end(s, pos + 1, CharClass::NotQuote);
        if close < s.len() {
            Piece { kind: PieceKind::Lexeme(TokenType::String_), start: pos, end: close + 1 }
        } else {
            Piece { kind: PieceKind::UnterminatedString, start: pos, end: s.len() as int }
        }
    } else if is_digit(c) {
        Piece { kind: PieceKind::Lexeme(TokenType::Number), start: pos, end: number_end(s, pos) }
    } else if is_alpha(c) {
        let end = run_end(s, pos + 1, CharClass::Word);
        Piece { kind: PieceKind::Lexeme(word_type(s.subrange(pos, end))), start: pos, end }
    } else {
        Piece { kind: PieceKind::UnexpectedCharacter, start: pos, end: pos + 1 }
    }
}

/// The pieces of `s` from `pos` to its end, in order. Every piece ends after
/// its start and within the source, so the guard only fails at the end.
pub open spec fn pieces_from(s: Seq<char>, pos: int) -> Seq<Piece>
    decreases s.len() - pos,
{
    if 0 <= pos < piece_at(s, pos).end <= s.len() {
        seq![piece_at(s, pos)] + pieces_from(s, piece_at(s, pos).end)
    } else {
        Seq::empty()
    }
}

/// The pieces of the whole source.
pub open spec fn pieces(s: Seq<char>) -> Seq<Piece> {
    pieces_from(s, 0)
}

/// The text of a piece.
pub open spec fn piece_text(s: Seq<char>, piece: Piece) -> Seq<char> {
    s.subrange(piece.start, piece.end)
}

/// The literal value of a lexeme: the text between the quotes for a string,
/// the lexeme itself for a number, nothing for any other category.
pub open spec fn literal_of(type_: TokenType, lexeme: Seq<char>) -> Option<LiteralView> {
    match type_ {
        TokenType::String_ => Some(LiteralView::String_(lexeme.subrange(1, lexeme.len() - 1))),
        TokenType::Number => Some(LiteralView::Number(lexeme)),
        _ => None,
    }
}

/// The token of a lexeme piece. Its line is that of its first character.
pub open spec fn token_of(s: Seq<char>, piece: Piece) -> TokenView {
    let type_ = match piece.kind {
        PieceKind::Lexeme(t) => t,
        _ => TokenType::Eof,
    };
    TokenView {
        type_,
        lexeme: piece_text(s, piece),
        literal: literal_of(type_, piece_text(s, piece)),
        line: line_at(s, piece.start),
    }
}

/// The end-of-input marker of `s`: an empty lexeme on the last line reached.
pub open spec fn eof_token(s: Seq<char>) -> TokenView {
    TokenView {
        type_: TokenType::Eof,
        lexeme: Seq::empty(),
        literal: None,
        line: line_at(s, s.len() as int),
    }
}

/// The tokens of the lexemes among `pieces`, in order.
pub open spec fn tokens_of(s: Seq<char>, pieces: Seq<Piece>) -> Seq<TokenView>
    decreases pieces.len(),
{
    if pieces.len() == 0 {
        Seq::empty()
    } else if pieces.last().kind is Lexeme {
        tokens_of(s, pieces.drop_last()).push(token_of(s, pieces.last()))
    } else {
        tokens_of(s, pieces.drop_last())
    }
}

/// A lexical error: the line it is reported at and its message.
pub struct DiagnosticView {
    pub line: int,
    pub message: Seq<char>,
}

pub open spec fn unexpected_character_message() -> Seq<char> {
    "Unexpected character"@
}

pub open spec fn unterminated_string_message() -> Seq<char> {
    "Unterminated string"@
}

/// Whether a piece is rejected with a diagnostic.
pub open spec fn is_rejected(piece: Piece) -> bool {
    piece.kind is UnexpectedCharacter || piece.kind is UnterminatedString
}

/// The diagnostic of a rejected piece. An unexpected character is reported at
/// its own line, an unterminated string at the line where the source ends.
pub open spec fn diagnostic_of(s: Seq<char>, piece: Piece) -> DiagnosticView {
    if piece.kind is UnterminatedString {
        DiagnosticView { line: line_at(s, piece.end), message: unterminated_string_message() }
    } else {
        DiagnosticView { line: line_at(s, piece.start), message: unexpected_character_message() }
    }
}

/// The diagnostics of the rejected pieces among `pieces`, in order.
pub open spec fn diagnostics_of(s: Seq<char>, pieces: Seq<Piece>) -> Seq<DiagnosticView>
    decreases pieces.len(),
{
    if pieces.len() == 0 {
        Seq::empty()
    } else if is_rejected(pieces.last()) {
        diagnostics_of(s, pieces.drop_last()).push(diagnostic_of(s, pieces.last()))
    } else {
        diagnostics_of(s, pieces.drop_last())
    }
}

/// The token sequence of a source: the tokens of its lexemes, then the
/// end-of-input marker.
pub open spec fn scan(s: Seq<char>) -> Seq<TokenView> {
    tokens_of(s, pieces(s)).push(eof_token(s))
}

/// The lexical errors of a source, in order.
pub open spec fn scan_diagnostics(s: Seq<char>) -> Seq<DiagnosticView> {
    diagnostics_of(s, pieces(s))
}

/// The texts of `pieces`, one after the other.
pub open spec fn text_of(s: Seq<char>, pieces: Seq<Piece>) -> Seq<char>
    decreases pieces.len(),
{
    if pieces.len() == 0 {
        Seq::empty()
    } else {
        piece_text(s, pieces.first()) + text_of(s, pieces.drop_first())
    }
}

/// The start positions of the lexemes among `pieces`, in order. The token at
/// index `i` of `tokens_of(s, pieces)` is the token of the lexeme that starts
/// at index `i` of this sequence.
pub open spec fn lexeme_starts(pieces: Seq<Piece>) -> Seq<int>
    decreases pieces.len(),
{
    if pieces.len() == 0 {
        Seq::empty()
    } else if pieces.last().kind is Lexeme {
        lexeme_starts(pieces.drop_last()).push(pieces.last().start)
    } else {
        lexeme_starts(pieces.drop_last())
    }
}

} // verus!
