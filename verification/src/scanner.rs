//! The scanner: a cursor over the source that produces its tokens.

use crate::grammar::{
    char_at_is, diagnostic_of, diagnostics_of, eof_token, is_alpha, is_alphanumeric, is_digit,
    is_rejected, keyword_of, line_at, operator, piece_at, pieces_from, run_end, token_of,
    tokens_of, CharClass, Piece,
};
use crate::laws::{lemma_line_bound, lemma_line_step};
use crate::loxide::Loxide;
use crate::token::{literal_view, token_views, Literal, Token, TokenType, TokenView};
use vstd::prelude::*;
use vstd::std_specs::iter::IteratorSpec;
use vstd::string::group_string_axioms;

verus! {

/// Appends one character to a string with `String::push`, which puts the
/// character after the last one of the string and changes nothing else.
#[verifier::external_body]
fn push_char(text: &mut String, c: char)
    ensures
        final(text)@ == old(text)@.push(c),
{
    text.push(c);
}

/// Whether two texts hold the same characters.
fn same_text(a: &str, b: &str) -> (same: bool)
    ensures
        same == (a@ == b@),
{
    let length: usize = a.unicode_len();
    if length != b.unicode_len() {
        return false;
    }
    let mut i: usize = 0;
    while i < length
        invariant
            length == a@.len(),
            length == b@.len(),
            i <= length,
            forall|k: int| 0 <= k < i ==> a@[k] == b@[k],
        decreases length - i,
    {
        if a.get_char(i) != b.get_char(i) {
            return false;
        }
        i += 1;
    }
    assert(a@ =~= b@);
    true
}

/// Looks a word up in the reserved-word table.
pub fn keyword(text: &str) -> (found: Option<TokenType>)
    ensures
        found == keyword_of(text@),
{
    if same_text(text, "and") {
        Some(TokenType::And)
    } else if same_text(text, "class") {
        Some(TokenType::Class)
    } else if same_text(text, "else") {
        Some(TokenType::Else)
    } else if same_text(text, "false") {
        Some(TokenType::False)
    } else if same_text(text, "for") {
        Some(TokenType::For)
    } else if same_text(text, "fun") {
        Some(TokenType::Fun)
    } else if same_text(text, "if") {
        Some(TokenType::If)
    } else if same_text(text, "nil") {
        Some(TokenType::Nil)
    } else if same_text(text, "or") {
        Some(TokenType::Or)
    } else if same_text(text, "print") {
        Some(TokenType::Print)
    } else if same_text(text, "return") {
        Some(TokenType::Return)
    } else if same_text(text, "super") {
        Some(TokenType::Super)
    } else if same_text(text, "this") {
        Some(TokenType::This)
    } else if same_text(text, "true") {
        Some(TokenType::True)
    } else if same_text(text, "var") {
        Some(TokenType::Var)
    } else if same_text(text, "while") {
        Some(TokenType::While)
    } else {
        None
    }
}

fn is_ascii_digit(c: char) -> (digit: bool)
    ensures
        digit == is_digit(c),
{
    '0' <= c && c <= '9'
}

fn is_ascii_alphabetic(c: char) -> (letter: bool)
    ensures
        letter == ('a' <= c <= 'z' || 'A' <= c <= 'Z'),
{
    ('a' <= c && c <= 'z') || ('A' <= c && c <= 'Z')
}

/// The cursor state of one scan.
pub struct Scanner {
    source: Vec<char>,
    tokens: Vec<Token>,
    start: usize,
    current: usize,
    line: usize,
}

impl Scanner {
    /// The characters of the source.
    pub closed spec fn source(&self) -> Seq<char> {
        self.source@
    }

    /// The tokens produced so far and not yet handed out.
    pub closed spec fn pending(&self) -> Seq<TokenView> {
        token_views(self.tokens@)
    }

    /// The position of the next unread character.
    pub closed spec fn position(&self) -> int {
        self.current as int
    }

    /// The cursor lies within the source.
    spec fn in_bounds(&self) -> bool {
        self.start <= self.current <= self.source@.len() < usize::MAX
    }

    /// The cursor lies within the source and the line counter is the line of
    /// the next unread character.
    pub closed spec fn well_formed(&self) -> bool {
        &&& self.in_bounds()
        &&& self.line as int == line_at(self.source@, self.current as int)
    }

    /// A scanner at the start of `source`.
    pub fn new(source: String) -> (scanner: Self)
        ensures
            scanner.well_formed(),
            scanner.source() == source@,
            scanner.position() == 0,
            scanner.pending() == Seq::<TokenView>::empty(),
    {
        broadcast use group_string_axioms;

        let mut chars: Vec<char> = Vec::new();
        let text: &str = source.as_str();
        let mut rest = text.chars();
        loop
            invariant
                chars@ + rest.remaining() == source@,
                rest.obeys_prophetic_iter_laws(),
                rest.decrease() is Some,
            ensures
                chars@ == source@,
            decreases rest.decrease().unwrap(),
        {
            match rest.next() {
                Some(c) => {
                    chars.push(c);
                    assert(chars@ + rest.remaining() =~= source@);
                },
                None => {
                    assert(chars@ =~= source@);
                    break ;
                },
            }
        }
        // One more slot fits after the last character, so the line counter,
        // which is at most one more than the length, cannot overflow.
        chars.push('\0');
        assert(chars@.len() == chars.len());
        chars.pop();
        assert(chars@ =~= source@);
        let scanner = Self { source: chars, tokens: Vec::new(), start: 0, current: 0, line: 1 };
        assert(scanner.pending() =~= Seq::<TokenView>::empty());
        assert(source@.take(0) =~= Seq::<char>::empty());
        scanner
    }

    /// Scans the rest of the source and hands out every token produced,
    /// followed by the end-of-input marker. Each lexical error on the way is
    /// reported to `sink`.
    pub fn scan_tokens(&mut self, sink: &mut Loxide) -> (tokens: Vec<Token>)
        requires
            old(self).well_formed(),
        ensures
            token_views(tokens@) == old(self).pending() + tokens_of(
                old(self).source(),
                pieces_from(old(self).source(), old(self).position()),
            ).push(eof_token(old(self).source())),
            token_views(tokens@).last() == eof_token(old(self).source()),
            final(sink).reported() == old(sink).reported() + diagnostics_of(
                old(self).source(),
                pieces_from(old(self).source(), old(self).position()),
            ),
            final(sink).flagged() == (old(sink).flagged() || diagnostics_of(
                old(self).source(),
                pieces_from(old(self).source(), old(self).position()),
            ).len() > 0),
            final(self).well_formed(),
            final(self).source() == old(self).source(),
            final(self).position() == old(self).source().len(),
            final(self).pending() == Seq::<TokenView>::empty(),
    {
        let ghost s = self.source@;
        let ghost done: Seq<Piece> = Seq::empty();
        proof {
            assert(old(self).pending() + tokens_of(s, done) =~= old(self).pending());
            assert(old(sink).reported() + diagnostics_of(s, done) =~= old(sink).reported());
        }
        while !self.is_at_end()
            invariant
                self.well_formed(),
                self.source@ == s,
                done + pieces_from(s, self.current as int) == pieces_from(
                    s,
                    old(self).current as int,
                ),
                token_views(self.tokens@) == old(self).pending() + tokens_of(s, done),
                sink.reported() == old(sink).reported() + diagnostics_of(s, done),
                sink.flagged() == (old(sink).flagged() || diagnostics_of(s, done).len() > 0),
            decreases s.len() - self.current,
        {
            self.start = self.current;
            let ghost piece = piece_at(s, self.current as int);
            let ghost before = done;
            self.scan_token(sink);
            proof {
                done = before.push(piece);
                assert(done.drop_last() =~= before);
                assert(done + pieces_from(s, piece.end) =~= before + (seq![piece] + pieces_from(
                    s,
                    piece.end,
                )));
                assert(token_views(self.tokens@) =~= old(self).pending() + tokens_of(s, done));
                assert(sink.reported() =~= old(sink).reported() + diagnostics_of(s, done));
            }
        }

        proof {
            reveal_strlit("");
            assert(""@ =~= Seq::<char>::empty());
            assert(done + pieces_from(s, self.current as int) =~= done);
        }
        let marker = Token::new(TokenType::Eof, "", None, self.line);
        let ghost produced = self.tokens@;
        self.tokens.push(marker);
        proof {
            assert(marker@ == eof_token(s));
            assert(token_views(self.tokens@) =~= token_views(produced).push(marker@));
        }
        let mut tokens: Vec<Token> = Vec::new();
        core::mem::swap(&mut self.tokens, &mut tokens);
        proof {
            assert(token_views(tokens@) =~= old(self).pending() + tokens_of(s, done).push(
                eof_token(s),
            ));
            assert(self.pending() =~= Seq::<TokenView>::empty());
        }
        tokens
    }

    fn scan_token(&mut self, sink: &mut Loxide)
        requires
            old(self).well_formed(),
            old(self).start == old(self).current,
            old(self).current < old(self).source@.len(),
        ensures
            Self::consumed(*old(self), *final(self)),
            Self::reported(*old(self), *old(sink), *final(sink)),
    {
        proof {
            lemma_line_step(self.source@, self.current as int);
            lemma_line_bound(self.source@, self.current + 1);
        }
        let character = self.advance();
        match character {
            '(' => self.add_token(TokenType::LeftParen),
            ')' => self.add_token(TokenType::RightParen),
            '{' => self.add_token(TokenType::LeftBrace),
            '}' => self.add_token(TokenType::RightBrace),
            ',' => self.add_token(TokenType::Comma),
            '.' => self.add_token(TokenType::Dot),
            '-' => self.add_token(TokenType::Minus),
            '+' => self.add_token(TokenType::Plus),
            ';' => self.add_token(TokenType::Semicolon),
            '*' => self.add_token(TokenType::Star),
            '!' => self.handle_multi_char_operators('=', TokenType::BangEqual, TokenType::Bang),
            '=' => self.handle_multi_char_operators('=', TokenType::EqualEqual, TokenType::Equal),
            '<' => self.handle_multi_char_operators('=', TokenType::LessEqual, TokenType::Less),
            '>' => self.handle_multi_char_operators(
                '=',
                TokenType::GreaterEqual,
                TokenType::Greater,
            ),
            '/' => self.slash(),
            ' ' | '\r' | '\t' => {},
            '\n' => self.line += 1,
            '"' => self.string(sink),
            _ => {
                if is_ascii_digit(character) {
                    self.number()
                } else if is_ascii_alphabetic(character) || character == '_' {
                    self.identifier()
                } else {
                    sink.error(self.line, "Unexpected character")
                }
            },
        }
    }

    /// `post` differs from `pre` at most in the cursor, which is `by`
    /// characters further on.
    spec fn moved(pre: Scanner, post: Scanner, by: int) -> bool {
        &&& post.source == pre.source
        &&& post.tokens == pre.tokens
        &&& post.start == pre.start
        &&& post.line == pre.line
        &&& post.current == pre.current + by
    }

    fn is_at_end(&self) -> (at_end: bool)
        ensures
            at_end == (self.current >= self.source@.len()),
    {
        self.current >= self.source.len()
    }

    fn advance(&mut self) -> (c: char)
        requires
            old(self).in_bounds(),
            old(self).current < old(self).source@.len(),
        ensures
            final(self).in_bounds(),
            Self::moved(*old(self), *final(self), 1),
            c == old(self).source@[old(self).current as int],
    {
        self.current += 1;
        self.get_char(self.current - 1)
    }

    fn match_token(&mut self, expected: char) -> (matched: bool)
        requires
            old(self).in_bounds(),
        ensures
            final(self).in_bounds(),
            matched == char_at_is(old(self).source@, old(self).current as int, expected),
            Self::moved(*old(self), *final(self), if matched { 1int } else { 0int }),
    {
        if self.is_at_end() {
            return false;
        }
        if self.get_char(self.current) != expected {
            return false;
        }
        self.current += 1;
        true
    }

    fn token_match(&mut self, expected: char, true_: TokenType, false_: TokenType) -> (type_:
        TokenType)
        requires
            old(self).in_bounds(),
        ensures
            final(self).in_bounds(),
            char_at_is(old(self).source@, old(self).current as int, expected) ==> type_ == true_
                && Self::moved(*old(self), *final(self), 1),
            !char_at_is(old(self).source@, old(self).current as int, expected) ==> type_ == false_
                && Self::moved(*old(self), *final(self), 0),
    {
        if self.match_token(expected) {
            return true_;
        }
        false_
    }

    fn get_char(&self, index: usize) -> (c: char)
        requires
            index < self.source@.len(),
        ensures
            c == self.source@[index as int],
    {
        self.source[index]
    }

    fn get_substring(&self, start: usize, end: usize) -> (text: String)
        requires
            start <= end <= self.source@.len(),
        ensures
            text@ == self.source@.subrange(start as int, end as int),
    {
        let mut text = String::new();
        let mut i: usize = start;
        while i < end
            invariant
                start <= i <= end <= self.source@.len(),
                text@ == self.source@.subrange(start as int, i as int),
            decreases end - i,
        {
            push_char(&mut text, self.source[i]);
            i += 1;
            assert(text@ =~= self.source@.subrange(start as int, i as int));
        }
        text
    }

    fn peek(&self) -> (c: char)
        ensures
            c == if self.current < self.source@.len() {
                self.source@[self.current as int]
            } else {
                '\0'
            },
    {
        if self.is_at_end() {
            return '\0';
        }
        self.get_char(self.current)
    }

    fn peek_next(&self) -> (c: char)
        requires
            self.in_bounds(),
        ensures
            c == if self.current + 1 < self.source@.len() {
                self.source@[self.current + 1]
            } else {
                '\0'
            },
    {
        if self.current + 1 >= self.source.len() {
            return '\0';
        }
        self.get_char(self.current + 1)
    }

    fn is_alphanumeric(&self, character: char) -> (word: bool)
        ensures
            word == is_alphanumeric(character),
    {
        is_ascii_alphabetic(character) || is_ascii_digit(character) || character == '_'
    }

    /// The scanner has read the first character of a lexeme and nothing more.
    spec fn opened(&self) -> bool {
        &&& self.well_formed()
        &&& self.current == self.start + 1
        &&& self.line as int == line_at(self.source@, self.start as int)
    }

    /// `post` is the scanner after the piece that starts where the lexeme of
    /// `pre` starts: the cursor is at the piece's end, and its token, if it
    /// has one, is added.
    spec fn consumed(pre: Scanner, post: Scanner) -> bool {
        let s = pre.source@;
        let piece = piece_at(s, pre.start as int);
        &&& post.well_formed()
        &&& post.source == pre.source
        &&& post.start == pre.start
        &&& post.start < post.current == piece.end
        &&& token_views(post.tokens@) == if piece.kind is Lexeme {
            token_views(pre.tokens@).push(token_of(s, piece))
        } else {
            token_views(pre.tokens@)
        }
    }

    /// `after` is the sink `before` with the diagnostic of the piece that
    /// starts where the lexeme of `pre` starts, if that piece is rejected.
    spec fn reported(pre: Scanner, before: Loxide, after: Loxide) -> bool {
        let s = pre.source@;
        let piece = piece_at(s, pre.start as int);
        &&& after.reported() == if is_rejected(piece) {
            before.reported().push(diagnostic_of(s, piece))
        } else {
            before.reported()
        }
        &&& after.flagged() == (before.flagged() || is_rejected(piece))
    }

    fn handle_multi_char_operators(
        &mut self,
        second_character: char,
        true_: TokenType,
        false_: TokenType,
    )
        requires
            old(self).opened(),
            second_character == '=',
            operator(old(self).source@[old(self).start as int]) == Some((true_, false_)),
        ensures
            Self::consumed(*old(self), *final(self)),
    {
        proof {
            if char_at_is(self.source@, self.current as int, second_character) {
                lemma_line_step(self.source@, self.current as int);
            }
        }
        let type_ = self.token_match(second_character, true_, false_);
        self.add_token(type_);
    }

    fn slash(&mut self)
        requires
            old(self).opened(),
            old(self).source@[old(self).start as int] == '/',
        ensures
            Self::consumed(*old(self), *final(self)),
    {
        proof {
            if char_at_is(self.source@, self.current as int, '/') {
                lemma_line_step(self.source@, self.current as int);
            }
        }
        if self.match_token('/') {
            while self.peek() != '\n' && !self.is_at_end()
                invariant
                    self.well_formed(),
                    self.source == old(self).source,
                    self.tokens == old(self).tokens,
                    self.start == old(self).start,
                    self.start + 2 <= self.current,
                    run_end(self.source@, self.current as int, CharClass::NotNewline) == run_end(
                        self.source@,
                        self.start + 2,
                        CharClass::NotNewline,
                    ),
                decreases self.source@.len() - self.current,
            {
                proof {
                    lemma_line_step(self.source@, self.current as int);
                }
                self.advance();
            }
            return ;
        }
        self.add_token(TokenType::Slash);
    }

    fn string(&mut self, sink: &mut Loxide)
        requires
            old(self).opened(),
            old(self).source@[old(self).start as int] == '"',
        ensures
            Self::consumed(*old(self), *final(self)),
            Self::reported(*old(self), *old(sink), *final(sink)),
    {
        // The token belongs to the line of its opening quote, so the line
        // feeds inside the string are counted apart until it is added.
        let mut newlines: usize = 0;
        while self.peek() != '"' && !self.is_at_end()
            invariant
                self.in_bounds(),
                self.source == old(self).source,
                self.tokens == old(self).tokens,
                self.start == old(self).start,
                self.line == old(self).line,
                self.start + 1 <= self.current,
                self.line + newlines == line_at(self.source@, self.current as int),
                run_end(self.source@, self.current as int, CharClass::NotQuote) == run_end(
                    self.source@,
                    self.start + 1,
                    CharClass::NotQuote,
                ),
            decreases self.source@.len() - self.current,
        {
            proof {
                lemma_line_step(self.source@, self.current as int);
                lemma_line_bound(self.source@, self.current + 1);
            }
            if self.peek() == '\n' {
                newlines += 1;
            }
            self.advance();
        }

        if self.is_at_end() {
            proof {
                lemma_line_bound(self.source@, self.current as int);
            }
            self.line += newlines;
            sink.error(self.line, "Unterminated string");
            return ;
        }
        proof {
            lemma_line_step(self.source@, self.current as int);
            lemma_line_bound(self.source@, self.current + 1);
        }
        self.advance();
        let value = self.get_substring(self.start + 1, self.current - 1);
        proof {
            let lexeme = self.source@.subrange(self.start as int, self.current as int);
            assert(value@ =~= lexeme.subrange(1, lexeme.len() - 1));
        }
        self.add_token_literal(TokenType::String_, Some(Literal::String_(value)));
        self.line += newlines;
    }

    fn number(&mut self)
        requires
            old(self).opened(),
            is_digit(old(self).source@[old(self).start as int]),
        ensures
            Self::consumed(*old(self), *final(self)),
    {
        while is_ascii_digit(self.peek())
            invariant
                self.well_formed(),
                self.source == old(self).source,
                self.tokens == old(self).tokens,
                self.start == old(self).start,
                self.line == old(self).line,
                self.start + 1 <= self.current,
                run_end(self.source@, self.current as int, CharClass::Digit) == run_end(
                    self.source@,
                    self.start as int,
                    CharClass::Digit,
                ),
            decreases self.source@.len() - self.current,
        {
            proof {
                lemma_line_step(self.source@, self.current as int);
            }
            self.advance();
        }

        if self.peek() == '.' && is_ascii_digit(self.peek_next()) {
            let ghost whole = self.current as int;
            proof {
                lemma_line_step(self.source@, self.current as int);
            }
            self.advance();

            while is_ascii_digit(self.peek())
                invariant
                    self.well_formed(),
                    self.source == old(self).source,
                    self.tokens == old(self).tokens,
                    self.start == old(self).start,
                    self.line == old(self).line,
                    whole + 1 <= self.current,
                    run_end(self.source@, self.current as int, CharClass::Digit) == run_end(
                        self.source@,
                        whole + 1,
                        CharClass::Digit,
                    ),
                decreases self.source@.len() - self.current,
            {
                proof {
                    lemma_line_step(self.source@, self.current as int);
                }
                self.advance();
            }
        }
        let value = self.get_substring(self.start, self.current);
        self.add_token_literal(TokenType::Number, Some(Literal::Number(value)));
    }

    fn identifier(&mut self)
        requires
            old(self).opened(),
            is_alpha(old(self).source@[old(self).start as int]),
        ensures
            Self::consumed(*old(self), *final(self)),
    {
        while self.is_alphanumeric(self.peek())
            invariant
                self.well_formed(),
                self.source == old(self).source,
                self.tokens == old(self).tokens,
                self.start == old(self).start,
                self.line == old(self).line,
                self.start + 1 <= self.current,
                run_end(self.source@, self.current as int, CharClass::Word) == run_end(
                    self.source@,
                    self.start + 1,
                    CharClass::Word,
                ),
            decreases self.source@.len() - self.current,
        {
            proof {
                lemma_line_step(self.source@, self.current as int);
            }
            self.advance();
        }

        let text = self.get_substring(self.start, self.current);
        let type_ = match keyword(text.as_str()) {
            Some(reserved) => reserved,
            None => TokenType::Identifier,
        };
        self.add_token(type_);
    }

    fn add_token(&mut self, type_: TokenType)
        requires
            old(self).in_bounds(),
        ensures
            Self::added(*old(self), *final(self), type_, None),
    {
        self.add_token_literal(type_, None);
    }

    /// `post` is `pre` with one more token: the text from the start of the
    /// lexeme to the cursor, at the current line.
    spec fn added(pre: Scanner, post: Scanner, type_: TokenType, literal: Option<Literal>) -> bool {
        &&& post.source == pre.source
        &&& post.start == pre.start
        &&& post.line == pre.line
        &&& post.current == pre.current
        &&& token_views(post.tokens@) == token_views(pre.tokens@).push(
            TokenView {
                type_,
                lexeme: pre.source@.subrange(pre.start as int, pre.current as int),
                literal: literal_view(literal),
                line: pre.line as int,
            },
        )
    }

    fn add_token_literal(&mut self, type_: TokenType, literal: Option<Literal>)
        requires
            old(self).in_bounds(),
        ensures
            Self::added(*old(self), *final(self), type_, literal),
    {
        let lexeme = self.get_substring(self.start, self.current);
        let token = Token::new(type_, lexeme.as_str(), literal, self.line);
        self.tokens.push(token);
        assert(token_views(self.tokens@) =~= token_views(old(self).tokens@).push(token@));
    }
}

} // verus!
