use loxide::loxide::{Diagnostic, Loxide};
use loxide::scanner::{keyword, Scanner};
use loxide::token::{Literal, Token, TokenType};

fn scan(source: &str) -> (Vec<Token>, Loxide) {
    let mut sink = Loxide::new();
    let tokens = sink.run(source);
    (tokens, sink)
}

fn types(tokens: &[Token]) -> Vec<TokenType> {
    tokens.iter().map(|t| t.token_type()).collect()
}

fn lexemes(tokens: &[Token]) -> Vec<String> {
    tokens.iter().map(|t| t.lexeme().to_string()).collect()
}

fn number_value(token: &Token) -> f64 {
    match token.literal() {
        Some(Literal::Number(text)) => text.parse::<f64>().unwrap(),
        other => panic!("not a number literal: {:?}", other),
    }
}

fn report_pairs(sink: &Loxide) -> Vec<(usize, String)> {
    sink.reports().iter().map(|d: &Diagnostic| (d.line(), d.message().to_string())).collect()
}

#[test]
fn empty_source_gives_only_the_marker() {
    let (tokens, sink) = scan("");
    assert_eq!(tokens, vec![Token::new(TokenType::Eof, "", None, 1)]);
    assert!(!sink.had_error());
    assert!(sink.reports().is_empty());
}

#[test]
fn last_token_is_the_marker_with_empty_lexeme() {
    for source in ["", "a", "1 + 2", "\"open", "@@@", "x\n\ny\n", "// only a comment"] {
        let (tokens, _) = scan(source);
        let last = tokens.last().unwrap();
        assert_eq!(last.token_type(), TokenType::Eof);
        assert_eq!(last.lexeme(), "");
        assert_eq!(last.literal(), &None);
        let markers = tokens.iter().filter(|t| t.token_type() == TokenType::Eof).count();
        assert_eq!(markers, 1);
    }
}

#[test]
fn marker_is_on_the_last_line_reached() {
    let (tokens, _) = scan("a\nb\n\n");
    assert_eq!(tokens.last().unwrap().line(), 4);
}

#[test]
fn punctuation_tokens() {
    let (tokens, sink) = scan("(){},.-+;*/");
    assert_eq!(
        types(&tokens),
        vec![
            TokenType::LeftParen,
            TokenType::RightParen,
            TokenType::LeftBrace,
            TokenType::RightBrace,
            TokenType::Comma,
            TokenType::Dot,
            TokenType::Minus,
            TokenType::Plus,
            TokenType::Semicolon,
            TokenType::Star,
            TokenType::Slash,
            TokenType::Eof,
        ]
    );
    assert_eq!(lexemes(&tokens), vec!["(", ")", "{", "}", ",", ".", "-", "+", ";", "*", "/", ""]);
    assert!(tokens.iter().all(|t| t.literal().is_none()));
    assert!(!sink.had_error());
}

#[test]
fn one_and_two_character_operators() {
    let (tokens, _) = scan("! != = == < <= > >=");
    assert_eq!(
        types(&tokens),
        vec![
            TokenType::Bang,
            TokenType::BangEqual,
            TokenType::Equal,
            TokenType::EqualEqual,
            TokenType::Less,
            TokenType::LessEqual,
            TokenType::Greater,
            TokenType::GreaterEqual,
            TokenType::Eof,
        ]
    );
    assert_eq!(lexemes(&tokens), vec!["!", "!=", "=", "==", "<", "<=", ">", ">=", ""]);
}

#[test]
fn operators_pair_up_from_the_left() {
    let (tokens, _) = scan("===!");
    assert_eq!(
        types(&tokens),
        vec![TokenType::EqualEqual, TokenType::Equal, TokenType::Bang, TokenType::Eof]
    );
    let (tokens, _) = scan("<==>");
    assert_eq!(
        types(&tokens),
        vec![TokenType::LessEqual, TokenType::Equal, TokenType::Greater, TokenType::Eof]
    );
}

#[test]
fn operator_at_the_end_of_the_source() {
    let (tokens, _) = scan("!");
    assert_eq!(tokens[0], Token::new(TokenType::Bang, "!", None, 1));
    assert_eq!(tokens.len(), 2);
}

#[test]
fn grouping_and_comparison_example() {
    let (tokens, sink) = scan("(1 + 2) != nil");
    assert_eq!(
        tokens,
        vec![
            Token::new(TokenType::LeftParen, "(", None, 1),
            Token::new(TokenType::Number, "1", Some(Literal::Number("1".to_string())), 1),
            Token::new(TokenType::Plus, "+", None, 1),
            Token::new(TokenType::Number, "2", Some(Literal::Number("2".to_string())), 1),
            Token::new(TokenType::RightParen, ")", None, 1),
            Token::new(TokenType::BangEqual, "!=", None, 1),
            Token::new(TokenType::Nil, "nil", None, 1),
            Token::new(TokenType::Eof, "", None, 1),
        ]
    );
    assert_eq!(number_value(&tokens[1]), 1.0);
    assert_eq!(number_value(&tokens[3]), 2.0);
    assert!(!sink.had_error());
}

#[test]
fn comment_gives_no_token_and_no_error() {
    let (tokens, sink) = scan("// comment\n1");
    assert_eq!(
        tokens,
        vec![
            Token::new(TokenType::Number, "1", Some(Literal::Number("1".to_string())), 2),
            Token::new(TokenType::Eof, "", None, 2),
        ]
    );
    assert_eq!(number_value(&tokens[0]), 1.0);
    assert!(!sink.had_error());
    assert!(sink.reports().is_empty());
}

#[test]
fn comment_runs_to_the_end_of_the_source() {
    let (tokens, sink) = scan("1 // \"not a string @ #");
    assert_eq!(types(&tokens), vec![TokenType::Number, TokenType::Eof]);
    assert!(!sink.had_error());
}

#[test]
fn comment_stops_before_the_line_feed() {
    let (tokens, _) = scan("a // x\nb");
    assert_eq!(
        tokens,
        vec![
            Token::new(TokenType::Identifier, "a", None, 1),
            Token::new(TokenType::Identifier, "b", None, 2),
            Token::new(TokenType::Eof, "", None, 2),
        ]
    );
}

#[test]
fn single_slash_is_a_token() {
    let (tokens, _) = scan("a / b");
    assert_eq!(
        types(&tokens),
        vec![TokenType::Identifier, TokenType::Slash, TokenType::Identifier, TokenType::Eof]
    );
}

#[test]
fn unterminated_string_is_reported_and_gives_no_token() {
    let (tokens, sink) = scan("\"abc");
    assert_eq!(tokens, vec![Token::new(TokenType::Eof, "", None, 1)]);
    assert!(sink.had_error());
    assert_eq!(report_pairs(&sink), vec![(1, "Unterminated string".to_string())]);
}

#[test]
fn unterminated_string_is_reported_at_the_last_line() {
    let (tokens, sink) = scan("x\n\"abc\ndef\n");
    assert_eq!(
        tokens,
        vec![Token::new(TokenType::Identifier, "x", None, 1), Token::new(TokenType::Eof, "", None, 4)]
    );
    assert_eq!(report_pairs(&sink), vec![(4, "Unterminated string".to_string())]);
}

#[test]
fn string_literal_keeps_quotes_in_lexeme_only() {
    let (tokens, sink) = scan("\"abc\"");
    assert_eq!(
        tokens,
        vec![
            Token::new(
                TokenType::String_,
                "\"abc\"",
                Some(Literal::String_("abc".to_string())),
                1
            ),
            Token::new(TokenType::Eof, "", None, 1),
        ]
    );
    assert!(!sink.had_error());
}

#[test]
fn empty_string_literal() {
    let (tokens, _) = scan("\"\"");
    assert_eq!(
        tokens[0],
        Token::new(TokenType::String_, "\"\"", Some(Literal::String_(String::new())), 1)
    );
}

#[test]
fn string_literal_does_no_escape_processing() {
    let (tokens, _) = scan("\"a\\n\" b");
    assert_eq!(
        tokens[0],
        Token::new(TokenType::String_, "\"a\\n\"", Some(Literal::String_("a\\n".to_string())), 1)
    );
    assert_eq!(tokens[1], Token::new(TokenType::Identifier, "b", None, 1));
    let (tokens, sink) = scan("\"a\\\"b\"");
    assert_eq!(
        tokens[0],
        Token::new(TokenType::String_, "\"a\\\"", Some(Literal::String_("a\\".to_string())), 1)
    );
    assert_eq!(tokens[1], Token::new(TokenType::Identifier, "b", None, 1));
    assert_eq!(report_pairs(&sink), vec![(1, "Unterminated string".to_string())]);
}

#[test]
fn multi_line_string_is_on_the_line_of_its_opening_quote() {
    let (tokens, sink) = scan("a\n\"x\ny\nz\" b");
    assert_eq!(
        tokens,
        vec![
            Token::new(TokenType::Identifier, "a", None, 1),
            Token::new(
                TokenType::String_,
                "\"x\ny\nz\"",
                Some(Literal::String_("x\ny\nz".to_string())),
                2
            ),
            Token::new(TokenType::Identifier, "b", None, 4),
            Token::new(TokenType::Eof, "", None, 4),
        ]
    );
    assert!(!sink.had_error());
}

#[test]
fn string_with_characters_outside_ascii() {
    let (tokens, sink) = scan("\"caf\u{e9} \u{1f600}\" x");
    assert_eq!(
        tokens[0],
        Token::new(
            TokenType::String_,
            "\"caf\u{e9} \u{1f600}\"",
            Some(Literal::String_("caf\u{e9} \u{1f600}".to_string())),
            1
        )
    );
    assert_eq!(tokens[1], Token::new(TokenType::Identifier, "x", None, 1));
    assert!(!sink.had_error());
}

#[test]
fn number_with_two_points_splits_after_the_first_fraction() {
    let (tokens, sink) = scan("12.5.6");
    assert_eq!(
        tokens,
        vec![
            Token::new(TokenType::Number, "12.5", Some(Literal::Number("12.5".to_string())), 1),
            Token::new(TokenType::Dot, ".", None, 1),
            Token::new(TokenType::Number, "6", Some(Literal::Number("6".to_string())), 1),
            Token::new(TokenType::Eof, "", None, 1),
        ]
    );
    assert_eq!(number_value(&tokens[0]), 12.5);
    assert_eq!(number_value(&tokens[2]), 6.0);
    assert!(!sink.had_error());
}

#[test]
fn trailing_point_is_not_part_of_the_number() {
    let (tokens, _) = scan("7.");
    assert_eq!(
        tokens,
        vec![
            Token::new(TokenType::Number, "7", Some(Literal::Number("7".to_string())), 1),
            Token::new(TokenType::Dot, ".", None, 1),
            Token::new(TokenType::Eof, "", None, 1),
        ]
    );
    let (tokens, _) = scan("7.abs");
    assert_eq!(
        types(&tokens),
        vec![TokenType::Number, TokenType::Dot, TokenType::Identifier, TokenType::Eof]
    );
    assert_eq!(lexemes(&tokens), vec!["7", ".", "abs", ""]);
}

#[test]
fn leading_point_and_sign_are_tokens_of_their_own() {
    let (tokens, _) = scan(".5");
    assert_eq!(types(&tokens), vec![TokenType::Dot, TokenType::Number, TokenType::Eof]);
    let (tokens, _) = scan("-3.25");
    assert_eq!(types(&tokens), vec![TokenType::Minus, TokenType::Number, TokenType::Eof]);
    assert_eq!(number_value(&tokens[1]), 3.25);
}

#[test]
fn number_literal_text_is_the_lexeme() {
    let (tokens, _) = scan("0123.4500");
    assert_eq!(
        tokens[0],
        Token::new(
            TokenType::Number,
            "0123.4500",
            Some(Literal::Number("0123.4500".to_string())),
            1
        )
    );
    assert_eq!(number_value(&tokens[0]), 123.45);
}

#[test]
fn number_followed_by_letters() {
    let (tokens, _) = scan("12ab");
    assert_eq!(types(&tokens), vec![TokenType::Number, TokenType::Identifier, TokenType::Eof]);
    assert_eq!(lexemes(&tokens), vec!["12", "ab", ""]);
}

#[test]
fn every_reserved_word_has_its_category() {
    let table = [
        ("and", TokenType::And),
        ("class", TokenType::Class),
        ("else", TokenType::Else),
        ("false", TokenType::False),
        ("for", TokenType::For),
        ("fun", TokenType::Fun),
        ("if", TokenType::If),
        ("nil", TokenType::Nil),
        ("or", TokenType::Or),
        ("print", TokenType::Print),
        ("return", TokenType::Return),
        ("super", TokenType::Super),
        ("this", TokenType::This),
        ("true", TokenType::True),
        ("var", TokenType::Var),
        ("while", TokenType::While),
    ];
    for (word, category) in table {
        assert_eq!(keyword(word), Some(category));
        let (tokens, sink) = scan(word);
        assert_eq!(
            tokens,
            vec![Token::new(category, word, None, 1), Token::new(TokenType::Eof, "", None, 1)]
        );
        assert!(!sink.had_error());
    }
}

#[test]
fn other_words_are_identifiers() {
    for word in [
        "x", "_", "_x1", "And", "AND", "nill", "ni", "classes", "fund", "or_", "_or", "printf",
        "True", "var1", "whil", "a1b2", "snake_case", "Eof",
    ] {
        assert_eq!(keyword(word), None);
        let (tokens, _) = scan(word);
        assert_eq!(
            tokens,
            vec![
                Token::new(TokenType::Identifier, word, None, 1),
                Token::new(TokenType::Eof, "", None, 1)
            ]
        );
    }
}

#[test]
fn keyword_lookup_needs_the_exact_text() {
    assert_eq!(keyword(""), None);
    assert_eq!(keyword(" and"), None);
    assert_eq!(keyword("and "), None);
    assert_eq!(keyword("f\u{fc}r"), None);
}

#[test]
fn words_are_maximal_runs() {
    let (tokens, _) = scan("orchid or forest for");
    assert_eq!(
        types(&tokens),
        vec![
            TokenType::Identifier,
            TokenType::Or,
            TokenType::Identifier,
            TokenType::For,
            TokenType::Eof
        ]
    );
}

#[test]
fn unexpected_character_is_reported_and_skipped() {
    let (tokens, sink) = scan("a @ b");
    assert_eq!(
        tokens,
        vec![
            Token::new(TokenType::Identifier, "a", None, 1),
            Token::new(TokenType::Identifier, "b", None, 1),
            Token::new(TokenType::Eof, "", None, 1),
        ]
    );
    assert!(sink.had_error());
    assert_eq!(report_pairs(&sink), vec![(1, "Unexpected character".to_string())]);
}

#[test]
fn each_unexpected_character_is_reported_at_its_line() {
    let (tokens, sink) = scan("#\n1 $\n\n\u{e9}");
    assert_eq!(types(&tokens), vec![TokenType::Number, TokenType::Eof]);
    assert_eq!(
        report_pairs(&sink),
        vec![
            (1, "Unexpected character".to_string()),
            (2, "Unexpected character".to_string()),
            (4, "Unexpected character".to_string()),
        ]
    );
}

#[test]
fn null_character_is_unexpected() {
    let (tokens, sink) = scan("1\u{0}2");
    assert_eq!(types(&tokens), vec![TokenType::Number, TokenType::Number, TokenType::Eof]);
    assert_eq!(report_pairs(&sink), vec![(1, "Unexpected character".to_string())]);
}

#[test]
fn blanks_give_no_tokens() {
    let (tokens, sink) = scan(" \t\r\n \n");
    assert_eq!(tokens, vec![Token::new(TokenType::Eof, "", None, 3)]);
    assert!(!sink.had_error());
}

#[test]
fn lines_count_the_line_feeds_before_each_lexeme() {
    let source = "var a = 1;\n\n// note\nprint a;\r\n\"s\"";
    let (tokens, _) = scan(source);
    let lines: Vec<usize> = tokens.iter().map(|t| t.line()).collect();
    assert_eq!(lines, vec![1, 1, 1, 1, 1, 4, 4, 4, 5, 5]);
    let mut from = 0;
    for token in &tokens[..tokens.len() - 1] {
        let at = from + source[from..].find(token.lexeme()).unwrap();
        let feeds = source[..at].chars().filter(|c| *c == '\n').count();
        assert_eq!(token.line(), feeds + 1);
        from = at + token.lexeme().len();
    }
    assert!(lines.windows(2).all(|pair| pair[0] <= pair[1]));
}

#[test]
fn lexemes_and_skipped_runs_rebuild_the_source() {
    let source = "fun add(a, b) { // sum\n  return a + b; }\nprint add(1.5, 2) >= 3 != \"x\ny\";\n";
    let (tokens, sink) = scan(source);
    assert!(!sink.had_error());
    let mut rebuilt = String::new();
    let mut from = 0;
    for token in &tokens {
        let at = from + source[from..].find(token.lexeme()).unwrap();
        let skipped = &source[from..at];
        let mut in_comment = false;
        for c in skipped.chars() {
            if c == '\n' {
                in_comment = false;
            } else if c == '/' {
                in_comment = true;
            }
            assert!(in_comment || c == ' ' || c == '\t' || c == '\r' || c == '\n');
        }
        rebuilt.push_str(skipped);
        rebuilt.push_str(token.lexeme());
        from = at + token.lexeme().len();
    }
    rebuilt.push_str(&source[from..]);
    assert_eq!(&source[from..], "\n");
    assert_eq!(rebuilt, source);
}

#[test]
fn scanning_twice_gives_the_same_tokens() {
    let source = "var x = (1 + 2.5) * y; // c\n\"s\" @ \"open";
    let (first, first_sink) = scan(source);
    let (second, second_sink) = scan(source);
    assert_eq!(first, second);
    assert_eq!(first_sink.reports(), second_sink.reports());
    let mut sink = Loxide::new();
    sink.error(9, "earlier");
    let third = sink.run(source);
    assert_eq!(first, third);
    assert_eq!(&sink.reports()[1..], &first_sink.reports()[..]);
}

#[test]
fn literal_is_present_only_for_strings_and_numbers() {
    let (tokens, _) = scan("a = \"s\" + 1.0; true false nil (x) != y");
    for token in &tokens {
        let carries = matches!(token.token_type(), TokenType::String_ | TokenType::Number);
        assert_eq!(token.literal().is_some(), carries);
    }
    assert_eq!(tokens[2].literal(), &Some(Literal::String_("s".to_string())));
    assert_eq!(tokens[4].literal(), &Some(Literal::Number("1.0".to_string())));
}

#[test]
fn scanner_hands_tokens_out_once() {
    let mut sink = Loxide::new();
    let mut scanner = Scanner::new("a b".to_string());
    let first = scanner.scan_tokens(&mut sink);
    assert_eq!(
        first,
        vec![
            Token::new(TokenType::Identifier, "a", None, 1),
            Token::new(TokenType::Identifier, "b", None, 1),
            Token::new(TokenType::Eof, "", None, 1),
        ]
    );
    let second = scanner.scan_tokens(&mut sink);
    assert_eq!(second, vec![Token::new(TokenType::Eof, "", None, 1)]);
}

#[test]
fn sink_starts_clear_and_keeps_reports_in_order() {
    let mut sink = Loxide::new();
    assert!(!sink.had_error());
    assert!(sink.reports().is_empty());
    sink.error(3, "first");
    sink.error(1, "second");
    assert!(sink.had_error());
    assert_eq!(report_pairs(&sink), vec![(3, "first".to_string()), (1, "second".to_string())]);
}

#[test]
fn flag_can_be_cleared_between_scans() {
    let mut sink = Loxide::default();
    sink.run("@");
    assert!(sink.had_error());
    sink.set_had_error(false);
    assert!(!sink.had_error());
    assert_eq!(sink.reports().len(), 1);
    let tokens = sink.run("ok");
    assert_eq!(tokens.len(), 2);
    assert!(!sink.had_error());
    sink.set_had_error(true);
    assert!(sink.had_error());
}

#[test]
fn flag_stays_set_after_a_clean_scan() {
    let mut sink = Loxide::new();
    sink.run("\"");
    sink.run("1");
    assert!(sink.had_error());
    assert_eq!(report_pairs(&sink), vec![(1, "Unterminated string".to_string())]);
}

#[test]
fn token_parts_are_what_it_was_built_from() {
    let token = Token::new(TokenType::Number, "4.2", Some(Literal::Number("4.2".to_string())), 7);
    assert_eq!(token.token_type(), TokenType::Number);
    assert_eq!(token.lexeme(), "4.2");
    assert_eq!(token.literal(), &Some(Literal::Number("4.2".to_string())));
    assert_eq!(token.line(), 7);
}

#[test]
fn token_rendering_holds_category_lexeme_and_literal() {
    let (tokens, _) = scan("x = \"hi\" 12.5");
    let rendered: Vec<String> = tokens.iter().map(|t| t.to_string()).collect();
    assert_eq!(
        rendered,
        vec![
            "Identifier x None",
            "Equal = None",
            "String_ \"hi\" Some(String_(\"hi\"))",
            "Number 12.5 Some(Number(12.5))",
            "Eof  None",
        ]
    );
    let flag = Token::new(TokenType::True, "true", Some(Literal::Bool(true)), 1);
    assert_eq!(flag.to_string(), "True true Some(Bool(true))");
    let flag = Token::new(TokenType::False, "false", Some(Literal::Bool(false)), 1);
    assert_eq!(flag.to_string(), "False false Some(Bool(false))");
    let nothing = Token::new(TokenType::Nil, "nil", Some(Literal::Nil), 1);
    assert_eq!(nothing.to_string(), "Nil nil Some(Nil)");
}

#[test]
fn category_names() {
    assert_eq!(TokenType::LeftParen.name(), "LeftParen");
    assert_eq!(TokenType::GreaterEqual.name(), "GreaterEqual");
    assert_eq!(TokenType::String_.name(), "String_");
    assert_eq!(TokenType::While.name(), "While");
    assert_eq!(TokenType::Eof.name(), "Eof");
}

#[test]
fn long_source_is_scanned_whole() {
    let line = "var total = total + 12.75; // running sum\n";
    let source = line.repeat(2000);
    let (tokens, sink) = scan(&source);
    assert_eq!(tokens.len(), 2000 * 7 + 1);
    assert_eq!(tokens[tokens.len() - 2].line(), 2000);
    assert_eq!(tokens.last().unwrap().line(), 2001);
    assert!(!sink.had_error());
}
