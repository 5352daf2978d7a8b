//! What holds of every scan, proved from the grammar.

use crate::grammar::{
    char_at_is, diagnostic_of, diagnostics_of, eof_token, in_class, is_alpha, is_alphanumeric,
    is_digit, is_rejected, keyword_of, lexeme_starts, line_at, literal_of, newline_count,
    number_end, piece_at, piece_text, pieces, pieces_from, run_end, scan, scan_diagnostics,
    text_of, token_of, tokens_of, unterminated_string_message, word_type, CharClass,
    DiagnosticView, Piece, PieceKind,
};
use crate::token::{LiteralView, TokenType};
use vstd::prelude::*;

verus! {

/// Moving one character forward adds one to the line exactly when that
/// character is a line feed.
pub proof fn lemma_line_step(s: Seq<char>, pos: int)
    requires
        0 <= pos < s.len(),
    ensures
        line_at(s, pos + 1) == line_at(s, pos) + if s[pos] == '\n' {
            1int
        } else {
            0int
        },
{
    assert(s.take(pos + 1).drop_last() =~= s.take(pos));
}

/// A line number is at least one and at most one more than the position.
pub proof fn lemma_line_bound(s: Seq<char>, pos: int)
    requires
        0 <= pos <= s.len(),
    ensures
        1 <= line_at(s, pos) <= pos + 1,
    decreases pos,
{
    if pos > 0 {
        lemma_line_bound(s, pos - 1);
        lemma_line_step(s, pos - 1);
    }
}

/// A run ends within the source, holds only characters of its class, and
/// cannot be extended.
pub proof fn lemma_run_end(s: Seq<char>, pos: int, class: CharClass)
    requires
        0 <= pos <= s.len(),
    ensures
        pos <= run_end(s, pos, class) <= s.len(),
        forall|k: int| pos <= k < run_end(s, pos, class) ==> in_class(class, #[trigger] s[k]),
        run_end(s, pos, class) < s.len() ==> !in_class(class, s[run_end(s, pos, class)]),
    decreases s.len() - pos,
{
    if pos < s.len() && in_class(class, s[pos]) {
        lemma_run_end(s, pos + 1, class);
    }
}

/// A piece starts where it is asked for, is not empty and ends within the
/// source.
pub proof fn lemma_piece_bounds(s: Seq<char>, pos: int)
    requires
        0 <= pos < s.len(),
    ensures
        piece_at(s, pos).start == pos,
        pos < piece_at(s, pos).end <= s.len(),
{
    lemma_run_end(s, pos + 1, CharClass::NotQuote);
    lemma_run_end(s, pos + 1, CharClass::Word);
    lemma_run_end(s, pos, CharClass::Digit);
    let whole = run_end(s, pos, CharClass::Digit);
    if whole + 1 <= s.len() {
        lemma_run_end(s, whole + 1, CharClass::Digit);
    }
    if pos + 2 <= s.len() {
        lemma_run_end(s, pos + 2, CharClass::NotNewline);
    }
}

/// The pieces from `pos` on are each the piece at its own start, lie within
/// the source from `pos` on, and follow one another without overlap.
pub proof fn lemma_pieces_in_order(s: Seq<char>, pos: int)
    requires
        0 <= pos <= s.len(),
    ensures
        forall|i: int|
            0 <= i < pieces_from(s, pos).len() ==> {
                let piece = #[trigger] pieces_from(s, pos)[i];
                &&& piece == piece_at(s, piece.start)
                &&& pos <= piece.start < piece.end <= s.len()
            },
        forall|i: int, j: int|
            0 <= i < j < pieces_from(s, pos).len() ==> (#[trigger] pieces_from(s, pos)[i]).end <= (
            #[trigger] pieces_from(s, pos)[j]).start,
    decreases s.len() - pos,
{
    if pos < s.len() {
        lemma_piece_bounds(s, pos);
        let first = piece_at(s, pos);
        let rest = pieces_from(s, first.end);
        lemma_pieces_in_order(s, first.end);
        assert(pieces_from(s, pos) =~= seq![first] + rest);
        assert forall|i: int| 0 <= i < pieces_from(s, pos).len() implies {
            let piece = #[trigger] pieces_from(s, pos)[i];
            &&& piece == piece_at(s, piece.start)
            &&& pos <= piece.start < piece.end <= s.len()
        } by {
            if i > 0 {
                assert(pieces_from(s, pos)[i] == rest[i - 1]);
            }
        }
        assert forall|i: int, j: int| 0 <= i < j < pieces_from(s, pos).len() implies (
        #[trigger] pieces_from(s, pos)[i]).end <= (#[trigger] pieces_from(s, pos)[j]).start by {
            assert(pieces_from(s, pos)[j] == rest[j - 1]);
            if i > 0 {
                assert(pieces_from(s, pos)[i] == rest[i - 1]);
            }
        }
    }
}

/// The texts of the pieces from `pos` on, put together, are the source from
/// `pos` on.
pub proof fn lemma_pieces_cover(s: Seq<char>, pos: int)
    requires
        0 <= pos <= s.len(),
    ensures
        text_of(s, pieces_from(s, pos)) == s.subrange(pos, s.len() as int),
    decreases s.len() - pos,
{
    if pos < s.len() {
        lemma_piece_bounds(s, pos);
        let first = piece_at(s, pos);
        let rest = pieces_from(s, first.end);
        lemma_pieces_cover(s, first.end);
        assert(pieces_from(s, pos) =~= seq![first] + rest);
        assert(pieces_from(s, pos).drop_first() =~= rest);
        assert(s.subrange(pos, first.end) + s.subrange(first.end, s.len() as int) =~= s.subrange(
            pos,
            s.len() as int,
        ));
    } else {
        assert(s.subrange(pos, s.len() as int) =~= Seq::<char>::empty());
    }
}

/// The line of a position does not go down as the position goes up.
pub proof fn lemma_line_monotone(s: Seq<char>, from: int, to: int)
    requires
        0 <= from <= to <= s.len(),
    ensures
        line_at(s, from) <= line_at(s, to),
    decreases to - from,
{
    if from < to {
        lemma_line_monotone(s, from, to - 1);
        lemma_line_step(s, to - 1);
    }
}

/// No lexeme has the category of the end-of-input marker.
pub proof fn lemma_lexeme_is_not_marker(s: Seq<char>, pos: int)
    requires
        0 <= pos < s.len(),
    ensures
        piece_at(s, pos).kind != PieceKind::Lexeme(TokenType::Eof),
{
}

/// The tokens of `pieces` are the tokens of the lexemes at `lexeme_starts`,
/// index by index; these lexemes lie between `low` and `high` and follow one
/// another without overlap.
proof fn lemma_lexemes(s: Seq<char>, pieces: Seq<Piece>, low: int, high: int)
    requires
        forall|i: int|
            0 <= i < pieces.len() ==> {
                let piece = #[trigger] pieces[i];
                &&& piece == piece_at(s, piece.start)
                &&& low <= piece.start < piece.end <= high
            },
        forall|i: int, j: int|
            0 <= i < j < pieces.len() ==> (#[trigger] pieces[i]).end <= (#[trigger] pieces[j]).start,
    ensures
        tokens_of(s, pieces).len() == lexeme_starts(pieces).len(),
        forall|i: int|
            0 <= i < lexeme_starts(pieces).len() ==> {
                let start = #[trigger] lexeme_starts(pieces)[i];
                &&& piece_at(s, start).kind is Lexeme
                &&& tokens_of(s, pieces)[i] == token_of(s, piece_at(s, start))
                &&& low <= start < piece_at(s, start).end <= high
            },
        forall|i: int, j: int|
            0 <= i < j < lexeme_starts(pieces).len() ==> piece_at(
                s,
                #[trigger] lexeme_starts(pieces)[i],
            ).end <= #[trigger] lexeme_starts(pieces)[j],
    decreases pieces.len(),
{
    if pieces.len() > 0 {
        let last = pieces.last();
        let front = pieces.drop_last();
        assert forall|i: int| 0 <= i < front.len() implies {
            let piece = #[trigger] front[i];
            &&& piece == piece_at(s, piece.start)
            &&& low <= piece.start < piece.end <= last.start
        } by {
            assert(front[i] == pieces[i]);
            assert(pieces[i].end <= pieces[pieces.len() - 1].start);
        }
        assert forall|i: int, j: int| 0 <= i < j < front.len() implies (#[trigger] front[i]).end
            <= (#[trigger] front[j]).start by {
            assert(front[i] == pieces[i]);
            assert(front[j] == pieces[j]);
        }
        lemma_lexemes(s, front, low, last.start);
    }
}

/// Where no diagnostic comes from `pieces`, none of them is rejected.
proof fn lemma_silent_pieces(s: Seq<char>, pieces: Seq<Piece>)
    requires
        diagnostics_of(s, pieces).len() == 0,
    ensures
        forall|i: int| 0 <= i < pieces.len() ==> !is_rejected(#[trigger] pieces[i]),
    decreases pieces.len(),
{
    if pieces.len() > 0 {
        let front = pieces.drop_last();
        lemma_silent_pieces(s, front);
        assert forall|i: int| 0 <= i < pieces.len() implies !is_rejected(#[trigger] pieces[i]) by {
            if i < pieces.len() - 1 {
                assert(pieces[i] == front[i]);
            }
        }
    }
}

/// Every scan ends with the end-of-input marker, whose lexeme is empty and
/// whose line is the last line of the source, and holds no other token of
/// that category.
pub proof fn lemma_scan_ends_with_marker(s: Seq<char>)
    ensures
        scan(s).len() >= 1,
        scan(s).last() == eof_token(s),
        scan(s).last().type_ == TokenType::Eof,
        scan(s).last().lexeme.len() == 0,
        scan(s).last().line == 1 + newline_count(s),
        forall|i: int| 0 <= i < scan(s).len() - 1 ==> (#[trigger] scan(s)[i]).type_ != TokenType::Eof,
{
    assert(s.take(s.len() as int) =~= s);
    lemma_pieces_in_order(s, 0);
    lemma_lexemes(s, pieces(s), 0, s.len() as int);
    assert forall|i: int| 0 <= i < scan(s).len() - 1 implies (#[trigger] scan(s)[i]).type_
        != TokenType::Eof by {
        let start = lexeme_starts(pieces(s))[i];
        lemma_lexeme_is_not_marker(s, start);
        assert(scan(s)[i] == tokens_of(s, pieces(s))[i]);
    }
}

/// The pieces of a source, put together in order, are the source. Each piece
/// is the lexeme of a token, a skipped run of blanks or a comment, or a
/// rejected run; where a source has no lexical error, none is rejected, so
/// the lexemes and the skipped runs alone make up the source.
pub proof fn lemma_pieces_rebuild_source(s: Seq<char>)
    ensures
        text_of(s, pieces(s)) == s,
        scan_diagnostics(s).len() == 0 ==> forall|i: int|
            0 <= i < pieces(s).len() ==> (#[trigger] pieces(s)[i]).kind is Lexeme || pieces(
                s,
            )[i].kind is Skipped,
{
    lemma_pieces_cover(s, 0);
    assert(s.subrange(0, s.len() as int) =~= s);
    if scan_diagnostics(s).len() == 0 {
        lemma_silent_pieces(s, pieces(s));
    }
}

/// The tokens before the marker are the tokens of the lexemes of the source,
/// in source order and without overlap. The line of each is one more than
/// the number of line feeds before its first character, and the lines never
/// go down along the token sequence.
pub proof fn lemma_lines_follow_source(s: Seq<char>)
    ensures
        scan(s).len() == lexeme_starts(pieces(s)).len() + 1,
        forall|i: int|
            0 <= i < lexeme_starts(pieces(s)).len() ==> {
                let start = #[trigger] lexeme_starts(pieces(s))[i];
                let token = scan(s)[i];
                &&& 0 <= start
                &&& start + token.lexeme.len() <= s.len()
                &&& token.lexeme == s.subrange(start, start + token.lexeme.len())
                &&& token.lexeme.len() > 0
                &&& token.line == 1 + newline_count(s.take(start))
            },
        forall|i: int, j: int|
            0 <= i < j < lexeme_starts(pieces(s)).len() ==> (#[trigger] lexeme_starts(
                pieces(s),
            )[i]) + scan(s)[i].lexeme.len() <= #[trigger] lexeme_starts(pieces(s))[j],
        forall|i: int, j: int|
            0 <= i <= j < scan(s).len() ==> (#[trigger] scan(s)[i]).line <= (
            #[trigger] scan(s)[j]).line,
{
    let starts = lexeme_starts(pieces(s));
    let tokens = scan(s);
    lemma_pieces_in_order(s, 0);
    lemma_lexemes(s, pieces(s), 0, s.len() as int);
    assert forall|i: int| 0 <= i < starts.len() implies {
        let start = #[trigger] starts[i];
        let token = tokens[i];
        &&& token == token_of(s, piece_at(s, start))
        &&& token.lexeme.len() == piece_at(s, start).end - start
    } by {
        assert(tokens[i] == tokens_of(s, pieces(s))[i]);
    }
    assert forall|i: int, j: int| 0 <= i <= j < tokens.len() implies (#[trigger] tokens[i]).line
        <= (#[trigger] tokens[j]).line by {
        let from = if i < starts.len() {
            starts[i]
        } else {
            s.len() as int
        };
        let to = if j < starts.len() {
            starts[j]
        } else {
            s.len() as int
        };
        assert(tokens[i].line == line_at(s, from));
        assert(tokens[j].line == line_at(s, to));
        if i < j && j < starts.len() {
            assert(piece_at(s, starts[i]).end <= starts[j]);
        }
        lemma_line_monotone(s, from, to);
    }
}

/// Every token of a scan carries the literal that belongs to its category
/// and lexeme: the text between the quotes for a string, the lexeme for a
/// number, and nothing for any other category.
pub proof fn lemma_literals_match_categories(s: Seq<char>)
    ensures
        forall|i: int|
            0 <= i < scan(s).len() ==> (#[trigger] scan(s)[i]).literal == literal_of(
                scan(s)[i].type_,
                scan(s)[i].lexeme,
            ),
        forall|i: int|
            0 <= i < scan(s).len() ==> ((#[trigger] scan(s)[i]).literal is Some <==> (scan(
                s,
            )[i].type_ == TokenType::String_ || scan(s)[i].type_ == TokenType::Number)),
{
    lemma_pieces_in_order(s, 0);
    lemma_lexemes(s, pieces(s), 0, s.len() as int);
    assert forall|i: int| 0 <= i < scan(s).len() implies (#[trigger] scan(s)[i]).literal
        == literal_of(scan(s)[i].type_, scan(s)[i].lexeme) by {
        if i < scan(s).len() - 1 {
            let start = lexeme_starts(pieces(s))[i];
            assert(scan(s)[i] == tokens_of(s, pieces(s))[i]);
        }
    }
}

/// A lexeme that starts with a letter or an underscore is the longest run of
/// letters, digits and underscores from there. Its category is the one the
/// reserved-word table gives for its text, or `Identifier` where the table
/// has none, and its token carries no literal.
pub proof fn lemma_words(s: Seq<char>, pos: int)
    requires
        0 <= pos < s.len(),
        is_alpha(s[pos]),
    ensures
        pos < piece_at(s, pos).end <= s.len(),
        forall|k: int| pos <= k < piece_at(s, pos).end ==> is_alphanumeric(#[trigger] s[k]),
        piece_at(s, pos).end < s.len() ==> !is_alphanumeric(s[piece_at(s, pos).end]),
        piece_at(s, pos).kind == PieceKind::Lexeme(word_type(piece_text(s, piece_at(s, pos)))),
        keyword_of(piece_text(s, piece_at(s, pos))) is None ==> token_of(s, piece_at(s, pos)).type_
            == TokenType::Identifier,
        keyword_of(piece_text(s, piece_at(s, pos))) is Some ==> Some(
            token_of(s, piece_at(s, pos)).type_,
        ) == keyword_of(piece_text(s, piece_at(s, pos))),
        token_of(s, piece_at(s, pos)).literal is None,
{
    lemma_run_end(s, pos + 1, CharClass::Word);
}

/// The reserved-word table gives each of the sixteen reserved words its own
/// category.
pub proof fn lemma_reserved_words()
    ensures
        keyword_of("and"@) == Some(TokenType::And),
        keyword_of("class"@) == Some(TokenType::Class),
        keyword_of("else"@) == Some(TokenType::Else),
        keyword_of("false"@) == Some(TokenType::False),
        keyword_of("for"@) == Some(TokenType::For),
        keyword_of("fun"@) == Some(TokenType::Fun),
        keyword_of("if"@) == Some(TokenType::If),
        keyword_of("nil"@) == Some(TokenType::Nil),
        keyword_of("or"@) == Some(TokenType::Or),
        keyword_of("print"@) == Some(TokenType::Print),
        keyword_of("return"@) == Some(TokenType::Return),
        keyword_of("super"@) == Some(TokenType::Super),
        keyword_of("this"@) == Some(TokenType::This),
        keyword_of("true"@) == Some(TokenType::True),
        keyword_of("var"@) == Some(TokenType::Var),
        keyword_of("while"@) == Some(TokenType::While),
{
    reveal_strlit("and");
    reveal_strlit("class");
    reveal_strlit("else");
    reveal_strlit("false");
    reveal_strlit("for");
    reveal_strlit("fun");
    reveal_strlit("if");
    reveal_strlit("nil");
    reveal_strlit("or");
    reveal_strlit("print");
    reveal_strlit("return");
    reveal_strlit("super");
    reveal_strlit("this");
    reveal_strlit("true");
    reveal_strlit("var");
    reveal_strlit("while");
    assert("and"@[0] == 'a' && "class"@[0] == 'c' && "else"@[0] == 'e');
    assert("false"@[0] == 'f' && "for"@[1] == 'o' && "fun"@[1] == 'u');
    assert("for"@[0] == 'f' && "fun"@[0] == 'f');
    assert("if"@[0] == 'i' && "nil"@[0] == 'n' && "or"@[0] == 'o');
    assert("print"@[0] == 'p' && "return"@[0] == 'r' && "super"@[0] == 's');
    assert("this"@[0] == 't' && "true"@[0] == 't' && "this"@[1] == 'h' && "true"@[1] == 'r');
    assert("var"@[0] == 'v' && "while"@[0] == 'w');
}

/// A lexeme that starts with a digit is a number. It holds the longest run
/// of digits from there; if a point and a digit follow that run, it also
/// holds the point and the longest run of digits after it, and otherwise it
/// ends with the first run. Its literal is its own text.
pub proof fn lemma_numbers(s: Seq<char>, pos: int)
    requires
        0 <= pos < s.len(),
        is_digit(s[pos]),
    ensures
        piece_at(s, pos).kind == PieceKind::Lexeme(TokenType::Number),
        piece_at(s, pos).end == number_end(s, pos),
        pos < run_end(s, pos, CharClass::Digit) <= number_end(s, pos) <= s.len(),
        forall|k: int| pos <= k < run_end(s, pos, CharClass::Digit) ==> is_digit(#[trigger] s[k]),
        forall|k: int|
            run_end(s, pos, CharClass::Digit) < k < number_end(s, pos) ==> is_digit(
                #[trigger] s[k],
            ),
        number_end(s, pos) < s.len() ==> !is_digit(s[number_end(s, pos)]),
        number_end(s, pos) != run_end(s, pos, CharClass::Digit) <==> (char_at_is(
            s,
            run_end(s, pos, CharClass::Digit),
            '.',
        ) && run_end(s, pos, CharClass::Digit) + 1 < s.len() && is_digit(
            s[run_end(s, pos, CharClass::Digit) + 1],
        )),
        number_end(s, pos) != run_end(s, pos, CharClass::Digit) ==> number_end(s, pos) > run_end(
            s,
            pos,
            CharClass::Digit,
        ) + 1,
        token_of(s, piece_at(s, pos)).literal == Some(
            LiteralView::Number(s.subrange(pos, number_end(s, pos))),
        ),
{
    lemma_run_end(s, pos, CharClass::Digit);
    let whole = run_end(s, pos, CharClass::Digit);
    if whole + 1 < s.len() {
        lemma_run_end(s, whole + 1, CharClass::Digit);
    }
}

/// A lexeme that starts with a double quote runs to the next double quote.
/// If there is one, the lexeme is a string whose literal is the text between
/// the two quotes, on the line of the opening quote. If there is none, the
/// rest of the source is rejected as an unterminated string, reported at the
/// last line of the source.
pub proof fn lemma_strings(s: Seq<char>, pos: int)
    requires
        0 <= pos < s.len(),
        s[pos] == '"',
    ensures
        pos < run_end(s, pos + 1, CharClass::NotQuote) <= s.len(),
        forall|k: int| pos < k < run_end(s, pos + 1, CharClass::NotQuote) ==> #[trigger] s[k] != '"',
        run_end(s, pos + 1, CharClass::NotQuote) < s.len() ==> {
            let close = run_end(s, pos + 1, CharClass::NotQuote);
            &&& s[close] == '"'
            &&& piece_at(s, pos) == Piece {
                kind: PieceKind::Lexeme(TokenType::String_),
                start: pos,
                end: close + 1,
            }
            &&& token_of(s, piece_at(s, pos)).literal == Some(
                LiteralView::String_(s.subrange(pos + 1, close)),
            )
            &&& token_of(s, piece_at(s, pos)).line == line_at(s, pos)
        },
        run_end(s, pos + 1, CharClass::NotQuote) == s.len() ==> {
            &&& piece_at(s, pos) == Piece {
                kind: PieceKind::UnterminatedString,
                start: pos,
                end: s.len() as int,
            }
            &&& diagnostic_of(s, piece_at(s, pos)) == DiagnosticView {
                line: line_at(s, s.len() as int),
                message: unterminated_string_message(),
            }
        },
{
    lemma_run_end(s, pos + 1, CharClass::NotQuote);
    let close = run_end(s, pos + 1, CharClass::NotQuote);
    if close < s.len() {
        let lexeme = s.subrange(pos, close + 1);
        assert(lexeme.subrange(1, lexeme.len() - 1) =~= s.subrange(pos + 1, close));
    }
}

/// A comment runs from two slashes up to the next line feed, which is not
/// part of it, or to the end of the source. It gives no token and no
/// diagnostic.
pub proof fn lemma_comments(s: Seq<char>, pos: int)
    requires
        0 <= pos < s.len(),
        s[pos] == '/',
        char_at_is(s, pos + 1, '/'),
    ensures
        piece_at(s, pos).kind is Skipped,
        pos + 2 <= piece_at(s, pos).end <= s.len(),
        forall|k: int| pos <= k < piece_at(s, pos).end ==> #[trigger] s[k] != '\n',
        piece_at(s, pos).end < s.len() ==> s[piece_at(s, pos).end] == '\n',
{
    lemma_run_end(s, pos + 2, CharClass::NotNewline);
}

/// A scan depends on nothing but the characters of the source: whatever was
/// scanned or reported before, equal sources give equal tokens and equal
/// diagnostics.
pub proof fn lemma_scan_repeats(first: Seq<char>, second: Seq<char>)
    requires
        first.len() == second.len(),
        forall|i: int| 0 <= i < first.len() ==> first[i] == second[i],
    ensures
        scan(first) == scan(second),
        scan_diagnostics(first) == scan_diagnostics(second),
{
    assert(first =~= second);
}

} // verus!
