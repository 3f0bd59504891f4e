use lox::logger::Report;
use lox::scanner::Scanner;
use lox::token::{Decimal, Literal, Token, TokenType};

fn scanned(source: &str) -> Scanner {
    assert!(source.len() < usize::MAX);
    let mut scanner = Scanner::new(source.to_string());
    scanner.scan_tokens();
    scanner
}

fn kinds(source: &str) -> Vec<TokenType> {
    scanned(source).tokens().iter().map(|token| token.token_type).collect()
}

fn plain(token_type: TokenType, lexeme: &str, line: usize) -> Token {
    Token { token_type, lexeme: lexeme.to_string(), literal: Literal::Nil, line }
}

fn eof(line: usize) -> Token {
    plain(TokenType::Eof, "", line)
}

fn value(decimal: &Decimal) -> f64 {
    let mut text = String::new();
    for (i, digit) in decimal.digits.iter().enumerate() {
        if i + decimal.scale == decimal.digits.len() {
            text.push('.');
        }
        text.push((b'0' + digit) as char);
    }
    text.parse().unwrap()
}

fn report(line: usize, message: &str) -> Report {
    Report { line, location: String::new(), message: message.to_string() }
}

#[test]
fn test_string_literal() {
    const SCRIPT: &str = r#""This is a string literal""#;
    let mut scanner = Scanner::new(SCRIPT.into());
    scanner.scan_tokens();

    let tokens = scanner.tokens();
    assert_eq!(tokens.len(), 2);

    assert_eq!(
        tokens[0],
        Token {
            token_type: TokenType::String,
            lexeme: SCRIPT.into(),
            literal: Literal::String("This is a string literal".into()),
            line: 1,
        }
    );

    assert_eq!(
        tokens[1],
        Token { token_type: TokenType::Eof, lexeme: "".into(), literal: Literal::Nil, line: 1 }
    );
}

#[test]
fn test_number_literal() {
    const SCRIPT: &str = "123.456";
    const NUMBER: f64 = 123.456;

    let mut scanner = Scanner::new(SCRIPT.into());
    scanner.scan_tokens();

    let tokens = scanner.tokens();
    assert_eq!(tokens.len(), 2);

    assert_eq!(
        tokens[0],
        Token {
            token_type: TokenType::Number,
            lexeme: SCRIPT.into(),
            literal: Literal::Number(Decimal { digits: vec![1, 2, 3, 4, 5, 6], scale: 3 }),
            line: 1,
        }
    );
    match &tokens[0].literal {
        Literal::Number(decimal) => assert_eq!(value(decimal), NUMBER),
        other => panic!("not a number: {:?}", other),
    }

    assert_eq!(
        tokens[1],
        Token { token_type: TokenType::Eof, lexeme: "".into(), literal: Literal::Nil, line: 1 }
    );
}

#[test]
fn empty_source_is_eof_alone() {
    let scanner = scanned("");
    assert_eq!(scanner.tokens(), &vec![eof(1)]);
    assert!(!scanner.had_error());
    assert!(scanner.is_at_end());
}

#[test]
fn fresh_scanner_has_nothing() {
    let scanner = Scanner::new("var x;".to_string());
    assert!(scanner.tokens().is_empty());
    assert!(scanner.reports().is_empty());
    assert!(!scanner.had_error());
    assert!(!scanner.is_at_end());
    assert!(Scanner::new(String::new()).is_at_end());
}

#[test]
fn last_token_is_always_eof() {
    for source in ["", "a", "\n\n", "\"open", "@#", "1.", "// only a comment", "a\nb\n"] {
        let scanner = scanned(source);
        let tokens = scanner.tokens();
        let last = tokens.last().unwrap();
        assert_eq!(last.token_type, TokenType::Eof);
        assert_eq!(last.lexeme, "");
        assert_eq!(last.literal, Literal::Nil);
        assert_eq!(last.line, 1 + source.matches('\n').count());
        let eofs = tokens.iter().filter(|t| t.token_type == TokenType::Eof).count();
        assert_eq!(eofs, 1);
    }
}

#[test]
fn punctuation_marks() {
    assert_eq!(
        kinds("(){},.-+;*/"),
        vec![
            TokenType::LeftParen,
            TokenType::RightParen,
            TokenType::LeftBrace,
            TokenType::RightBrace,
            TokenType::Comma,
            TokenType::Dot,
            TokenType::Minus,
            TokenType::Plus,
            TokenType::Semicolon,
            TokenType::Star,
            TokenType::Slash,
            TokenType::Eof,
        ]
    );
    let scanner = scanned("(;");
    assert_eq!(
        scanner.tokens(),
        &vec![plain(TokenType::LeftParen, "(", 1), plain(TokenType::Semicolon, ";", 1), eof(1)]
    );
}

#[test]
fn two_character_operators_are_one_token() {
    let scanner = scanned("!= == <= >=");
    assert_eq!(
        scanner.tokens(),
        &vec![
            plain(TokenType::BangEqual, "!=", 1),
            plain(TokenType::EqualEqual, "==", 1),
            plain(TokenType::LessEqual, "<=", 1),
            plain(TokenType::GreaterEqual, ">=", 1),
            eof(1),
        ]
    );
}

#[test]
fn one_character_operators_stand_alone() {
    let scanner = scanned("! = < >");
    assert_eq!(
        scanner.tokens(),
        &vec![
            plain(TokenType::Bang, "!", 1),
            plain(TokenType::Equal, "=", 1),
            plain(TokenType::Less, "<", 1),
            plain(TokenType::Greater, ">", 1),
            eof(1),
        ]
    );
    assert_eq!(kinds("!"), vec![TokenType::Bang, TokenType::Eof]);
    assert_eq!(kinds("<a"), vec![TokenType::Less, TokenType::Identifier, TokenType::Eof]);
}

#[test]
fn operators_take_the_longest_match() {
    assert_eq!(
        kinds("==="),
        vec![TokenType::EqualEqual, TokenType::Equal, TokenType::Eof]
    );
    assert_eq!(
        kinds("!=="),
        vec![TokenType::BangEqual, TokenType::Equal, TokenType::Eof]
    );
    assert_eq!(
        kinds("<=>"),
        vec![TokenType::LessEqual, TokenType::Greater, TokenType::Eof]
    );
    assert_eq!(
        kinds("= ="),
        vec![TokenType::Equal, TokenType::Equal, TokenType::Eof]
    );
}

#[test]
fn line_comment_produces_no_token() {
    let scanner = scanned("// nothing to see (here) \"at all\" @");
    assert_eq!(scanner.tokens(), &vec![eof(1)]);
    assert!(!scanner.had_error());
}

#[test]
fn line_comment_stops_before_the_newline() {
    let scanner = scanned("a // rest\nb");
    assert_eq!(
        scanner.tokens(),
        &vec![plain(TokenType::Identifier, "a", 1), plain(TokenType::Identifier, "b", 2), eof(2)]
    );
    assert_eq!(kinds("//\n/"), vec![TokenType::Slash, TokenType::Eof]);
    assert_eq!(kinds("/ /"), vec![TokenType::Slash, TokenType::Slash, TokenType::Eof]);
}

#[test]
fn whitespace_is_discarded() {
    let scanner = scanned(" \t\r a \t b\r");
    assert_eq!(
        scanner.tokens(),
        &vec![plain(TokenType::Identifier, "a", 1), plain(TokenType::Identifier, "b", 1), eof(1)]
    );
}

#[test]
fn newline_increments_the_line() {
    let scanner = scanned("a\nb\n\nc\n");
    assert_eq!(
        scanner.tokens(),
        &vec![
            plain(TokenType::Identifier, "a", 1),
            plain(TokenType::Identifier, "b", 2),
            plain(TokenType::Identifier, "c", 4),
            eof(5),
        ]
    );
}

#[test]
fn errors_stand_on_their_line() {
    let scanner = scanned("a\n@\n\n#");
    assert_eq!(
        scanner.reports(),
        &vec![report(2, "Unknown character found: @"), report(4, "Unknown character found: #")]
    );
    assert_eq!(scanner.tokens(), &vec![plain(TokenType::Identifier, "a", 1), eof(4)]);
}

#[test]
fn lines_never_decrease() {
    let scanner = scanned("a \"x\ny\" b\n// c\n1.5 @ \"z\n\n");
    let lines: Vec<usize> = scanner.tokens().iter().map(|t| t.line).collect();
    assert_eq!(lines, vec![1, 1, 2, 4, 6]);
    assert!(lines.windows(2).all(|pair| pair[0] <= pair[1]));
    let report_lines: Vec<usize> = scanner.reports().iter().map(|r| r.line).collect();
    assert_eq!(report_lines, vec![4, 6]);
}

#[test]
fn string_literal_is_the_text_between_the_quotes() {
    let scanner = scanned("\"abc\"");
    assert_eq!(
        scanner.tokens(),
        &vec![
            Token {
                token_type: TokenType::String,
                lexeme: "\"abc\"".to_string(),
                literal: Literal::String("abc".to_string()),
                line: 1,
            },
            eof(1),
        ]
    );
}

#[test]
fn empty_string_literal() {
    let scanner = scanned("\"\"");
    assert_eq!(
        scanner.tokens(),
        &vec![
            Token {
                token_type: TokenType::String,
                lexeme: "\"\"".to_string(),
                literal: Literal::String(String::new()),
                line: 1,
            },
            eof(1),
        ]
    );
}

#[test]
fn string_keeps_what_is_inside() {
    let scanner = scanned("\"// not a comment 1.5 @ caf\u{e9} \u{1f600}\" x");
    assert!(!scanner.had_error());
    let tokens = scanner.tokens();
    assert_eq!(tokens.len(), 3);
    assert_eq!(
        tokens[0].literal,
        Literal::String("// not a comment 1.5 @ caf\u{e9} \u{1f600}".to_string())
    );
    assert_eq!(tokens[0].lexeme, "\"// not a comment 1.5 @ caf\u{e9} \u{1f600}\"");
    assert_eq!(tokens[1], plain(TokenType::Identifier, "x", 1));
}

#[test]
fn multi_line_string_counts_its_newlines() {
    let scanner = scanned("\"one\ntwo\nthree\" after\n");
    assert_eq!(
        scanner.tokens(),
        &vec![
            Token {
                token_type: TokenType::String,
                lexeme: "\"one\ntwo\nthree\"".to_string(),
                literal: Literal::String("one\ntwo\nthree".to_string()),
                line: 1,
            },
            plain(TokenType::Identifier, "after", 3),
            eof(4),
        ]
    );
}

#[test]
fn unterminated_string_is_one_error_and_no_token() {
    let scanner = scanned("\"abc");
    assert_eq!(scanner.tokens(), &vec![eof(1)]);
    assert_eq!(scanner.reports(), &vec![report(1, "Unterminated string literal")]);
    assert!(scanner.had_error());
    assert!(scanner.is_at_end());
}

#[test]
fn unterminated_string_is_reported_on_the_last_line() {
    let scanner = scanned("x \"abc\ndef\n");
    assert_eq!(scanner.tokens(), &vec![plain(TokenType::Identifier, "x", 1), eof(3)]);
    assert_eq!(scanner.reports(), &vec![report(3, "Unterminated string literal")]);
}

#[test]
fn lone_quote_is_unterminated() {
    let scanner = scanned("\"");
    assert_eq!(scanner.tokens(), &vec![eof(1)]);
    assert_eq!(scanner.reports(), &vec![report(1, "Unterminated string literal")]);
}

#[test]
fn unknown_character_is_one_error_and_no_token() {
    let scanner = scanned("@");
    assert_eq!(scanner.tokens(), &vec![eof(1)]);
    assert_eq!(scanner.reports(), &vec![report(1, "Unknown character found: @")]);
    assert!(scanner.had_error());
}

#[test]
fn scanning_goes_on_after_an_error() {
    let scanner = scanned("a @ b # \"c");
    assert_eq!(
        scanner.tokens(),
        &vec![plain(TokenType::Identifier, "a", 1), plain(TokenType::Identifier, "b", 1), eof(1)]
    );
    assert_eq!(
        scanner.reports(),
        &vec![
            report(1, "Unknown character found: @"),
            report(1, "Unknown character found: #"),
            report(1, "Unterminated string literal"),
        ]
    );
}

#[test]
fn bytes_outside_ascii_are_unknown_one_by_one() {
    let scanner = scanned("a\u{e9}b");
    assert_eq!(
        scanner.tokens(),
        &vec![plain(TokenType::Identifier, "a", 1), plain(TokenType::Identifier, "b", 1), eof(1)]
    );
    assert_eq!(
        scanner.reports(),
        &vec![
            report(1, "Unknown character found: \u{c3}"),
            report(1, "Unknown character found: \u{a9}"),
        ]
    );
}

#[test]
fn nul_byte_is_unknown() {
    let scanner = scanned("1\u{0}2");
    assert_eq!(kinds("1\u{0}2"), vec![TokenType::Number, TokenType::Number, TokenType::Eof]);
    assert_eq!(scanner.reports(), &vec![report(1, "Unknown character found: \u{0}")]);
}

#[test]
fn integer_literal() {
    let scanner = scanned("123");
    assert_eq!(
        scanner.tokens(),
        &vec![
            Token {
                token_type: TokenType::Number,
                lexeme: "123".to_string(),
                literal: Literal::Number(Decimal { digits: vec![1, 2, 3], scale: 0 }),
                line: 1,
            },
            eof(1),
        ]
    );
    match &scanner.tokens()[0].literal {
        Literal::Number(decimal) => assert_eq!(value(decimal), 123.0),
        other => panic!("not a number: {:?}", other),
    }
}

#[test]
fn trailing_dot_is_not_part_of_the_number() {
    let scanner = scanned("123.");
    assert_eq!(
        scanner.tokens(),
        &vec![
            Token {
                token_type: TokenType::Number,
                lexeme: "123".to_string(),
                literal: Literal::Number(Decimal { digits: vec![1, 2, 3], scale: 0 }),
                line: 1,
            },
            plain(TokenType::Dot, ".", 1),
            eof(1),
        ]
    );
    assert_eq!(
        kinds("1.x"),
        vec![TokenType::Number, TokenType::Dot, TokenType::Identifier, TokenType::Eof]
    );
}

#[test]
fn leading_dot_is_not_part_of_the_number() {
    assert_eq!(kinds(".5"), vec![TokenType::Dot, TokenType::Number, TokenType::Eof]);
}

#[test]
fn number_has_one_fraction() {
    let scanner = scanned("1.5.25");
    let tokens = scanner.tokens();
    assert_eq!(tokens.len(), 4);
    assert_eq!(tokens[0].lexeme, "1.5");
    assert_eq!(tokens[0].literal, Literal::Number(Decimal { digits: vec![1, 5], scale: 1 }));
    assert_eq!(tokens[1], plain(TokenType::Dot, ".", 1));
    assert_eq!(tokens[2].lexeme, "25");
    assert_eq!(tokens[2].literal, Literal::Number(Decimal { digits: vec![2, 5], scale: 0 }));
}

#[test]
fn number_keeps_every_digit() {
    let scanner = scanned("007.0100");
    assert_eq!(
        scanner.tokens()[0].literal,
        Literal::Number(Decimal { digits: vec![0, 0, 7, 0, 1, 0, 0], scale: 4 })
    );
    let long = "123456789012345678901234567890.5";
    let scanner = scanned(long);
    assert!(!scanner.had_error());
    assert_eq!(scanner.tokens().len(), 2);
    assert_eq!(scanner.tokens()[0].lexeme, long);
    match &scanner.tokens()[0].literal {
        Literal::Number(decimal) => {
            assert_eq!(decimal.scale, 1);
            assert_eq!(decimal.digits.len(), 31);
            assert_eq!(value(decimal), 123456789012345678901234567890.5);
        },
        other => panic!("not a number: {:?}", other),
    }
}

#[test]
fn number_ends_where_the_digits_end() {
    assert_eq!(
        kinds("12ab"),
        vec![TokenType::Number, TokenType::Identifier, TokenType::Eof]
    );
    assert_eq!(
        kinds("1+2"),
        vec![TokenType::Number, TokenType::Plus, TokenType::Number, TokenType::Eof]
    );
}

#[test]
fn reserved_words_have_their_own_kinds() {
    let words = [
        ("and", TokenType::And),
        ("class", TokenType::Class),
        ("else", TokenType::Else),
        ("false", TokenType::False),
        ("fun", TokenType::Fun),
        ("for", TokenType::For),
        ("if", TokenType::If),
        ("nil", TokenType::Nil),
        ("or", TokenType::Or),
        ("print", TokenType::Print),
        ("return", TokenType::Return),
        ("super", TokenType::Super),
        ("this", TokenType::This),
        ("true", TokenType::True),
        ("var", TokenType::Var),
        ("while", TokenType::While),
    ];
    for (word, kind) in words {
        let scanner = scanned(word);
        assert_eq!(scanner.tokens(), &vec![plain(kind, word, 1), eof(1)]);
        assert!(!scanner.had_error());
    }
}

#[test]
fn other_words_are_identifiers() {
    for word in ["x", "_", "_1", "And", "CLASS", "classy", "fo", "fort", "nil_", "a1b2", "__init__"] {
        let scanner = scanned(word);
        assert_eq!(scanner.tokens(), &vec![plain(TokenType::Identifier, word, 1), eof(1)]);
    }
}

#[test]
fn words_carry_no_literal() {
    let scanner = scanned("true false nil");
    for token in scanner.tokens() {
        assert_eq!(token.literal, Literal::Nil);
    }
}

#[test]
fn lexemes_are_slices_in_source_order() {
    let source = "var x = (1.5 + y) >= \"s\"; // done\nprint x;";
    let scanner = scanned(source);
    let mut from = 0;
    for token in scanner.tokens() {
        if token.token_type == TokenType::Eof {
            continue;
        }
        let at = source[from..].find(token.lexeme.as_str()).unwrap();
        let gap = &source[from..from + at];
        assert!(gap.trim().is_empty() || gap.trim().starts_with("//"));
        from += at + token.lexeme.len();
    }
    assert_eq!(from, source.len());
}

#[test]
fn a_statement() {
    let scanner = scanned("var answer = 42;\nprint answer >= 4.2;");
    assert_eq!(
        scanner.tokens(),
        &vec![
            plain(TokenType::Var, "var", 1),
            plain(TokenType::Identifier, "answer", 1),
            plain(TokenType::Equal, "=", 1),
            Token {
                token_type: TokenType::Number,
                lexeme: "42".to_string(),
                literal: Literal::Number(Decimal { digits: vec![4, 2], scale: 0 }),
                line: 1,
            },
            plain(TokenType::Semicolon, ";", 1),
            plain(TokenType::Print, "print", 2),
            plain(TokenType::Identifier, "answer", 2),
            plain(TokenType::GreaterEqual, ">=", 2),
            Token {
                token_type: TokenType::Number,
                lexeme: "4.2".to_string(),
                literal: Literal::Number(Decimal { digits: vec![4, 2], scale: 1 }),
                line: 2,
            },
            plain(TokenType::Semicolon, ";", 2),
            eof(2),
        ]
    );
}

#[test]
fn scanning_again_adds_only_eof() {
    let mut scanner = scanned("a");
    scanner.scan_tokens();
    assert_eq!(
        scanner.tokens(),
        &vec![plain(TokenType::Identifier, "a", 1), eof(1), eof(1)]
    );
}

#[test]
fn finish_hands_out_tokens_and_reports() {
    let (tokens, reports) = scanned("a @").finish();
    assert_eq!(tokens, vec![plain(TokenType::Identifier, "a", 1), eof(1)]);
    assert_eq!(reports, vec![report(1, "Unknown character found: @")]);
}
