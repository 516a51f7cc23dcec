use clex::scanner::Scanner;
use clex::token::TokenType;

fn expect_tokens(input: &str, expected: &[(TokenType, &str, usize)]) {
    let mut scanner = Scanner::new(input);
    for (ttype, lexeme, line) in expected {
        let tok = scanner.scan_token();
        assert_eq!(tok.ttype, *ttype);
        assert_eq!(tok.lexeme, *lexeme);
        assert_eq!(tok.line, *line);
    }
}

#[test]
fn test_unterminated_string() {
    expect_tokens(
        "\"abc",
        &[
            (TokenType::Error, "Unterminated string.", 1),
            (TokenType::Eof, "", 1),
        ],
    );
}

#[test]
fn test_string_literal_includes_quotes() {
    expect_tokens(
        "\"hello\" x",
        &[
            (TokenType::StringLiteral, "\"hello\"", 1),
            (TokenType::Identifier, "x", 1),
            (TokenType::Eof, "", 1),
        ],
    );
}

#[test]
fn test_multiline_string_reports_start_line() {
    expect_tokens(
        "\"a\nb\" x",
        &[
            (TokenType::StringLiteral, "\"a\nb\"", 1),
            (TokenType::Identifier, "x", 2),
            (TokenType::Eof, "", 2),
        ],
    );
}

#[test]
fn test_unterminated_string_reports_stop_line() {
    expect_tokens(
        "\"a\nbc",
        &[
            (TokenType::Error, "Unterminated string.", 2),
            (TokenType::Eof, "", 2),
        ],
    );
}

#[test]
fn test_keyword_exactness() {
    expect_tokens(
        "ifs intx fort ifx returns whiles voids elses i f r w v",
        &[
            (TokenType::Identifier, "ifs", 1),
            (TokenType::Identifier, "intx", 1),
            (TokenType::Identifier, "fort", 1),
            (TokenType::Identifier, "ifx", 1),
            (TokenType::Identifier, "returns", 1),
            (TokenType::Identifier, "whiles", 1),
            (TokenType::Identifier, "voids", 1),
            (TokenType::Identifier, "elses", 1),
            (TokenType::Identifier, "i", 1),
            (TokenType::Identifier, "f", 1),
            (TokenType::Identifier, "r", 1),
            (TokenType::Identifier, "w", 1),
            (TokenType::Identifier, "v", 1),
            (TokenType::Eof, "", 1),
        ],
    );
}

#[test]
fn test_all_keywords() {
    expect_tokens(
        "void int else for if return while",
        &[
            (TokenType::Void, "void", 1),
            (TokenType::Int, "int", 1),
            (TokenType::Else, "else", 1),
            (TokenType::For, "for", 1),
            (TokenType::If, "if", 1),
            (TokenType::Return, "return", 1),
            (TokenType::While, "while", 1),
            (TokenType::Eof, "", 1),
        ],
    );
}

#[test]
fn test_keywords_case_sensitive() {
    expect_tokens(
        "If INT Void",
        &[
            (TokenType::Identifier, "If", 1),
            (TokenType::Identifier, "INT", 1),
            (TokenType::Identifier, "Void", 1),
            (TokenType::Eof, "", 1),
        ],
    );
}

#[test]
fn test_maximal_munch_operators() {
    expect_tokens(
        "!= ! == = <= < >= > =!",
        &[
            (TokenType::BangEqual, "!=", 1),
            (TokenType::Bang, "!", 1),
            (TokenType::EqualEqual, "==", 1),
            (TokenType::Equal, "=", 1),
            (TokenType::LessEqual, "<=", 1),
            (TokenType::Less, "<", 1),
            (TokenType::GreaterEqual, ">=", 1),
            (TokenType::Greater, ">", 1),
            (TokenType::Equal, "=", 1),
            (TokenType::Bang, "!", 1),
            (TokenType::Eof, "", 1),
        ],
    );
}

#[test]
fn test_bang_equal_not_split() {
    // P5: "!=" is one token even with no separator around it.
    expect_tokens(
        "a!=b",
        &[
            (TokenType::Identifier, "a", 1),
            (TokenType::BangEqual, "!=", 1),
            (TokenType::Identifier, "b", 1),
            (TokenType::Eof, "", 1),
        ],
    );
}

#[test]
fn test_punctuation() {
    // A `/` directly followed by `*` would open a comment, so the slash
    // gets a star on its left instead.
    expect_tokens(
        "(){};,.-+*/ *",
        &[
            (TokenType::LeftParen, "(", 1),
            (TokenType::RightParen, ")", 1),
            (TokenType::LeftBrace, "{", 1),
            (TokenType::RightBrace, "}", 1),
            (TokenType::Semicolon, ";", 1),
            (TokenType::Comma, ",", 1),
            (TokenType::Dot, ".", 1),
            (TokenType::Minus, "-", 1),
            (TokenType::Plus, "+", 1),
            (TokenType::Star, "*", 1),
            (TokenType::Slash, "/", 1),
            (TokenType::Star, "*", 1),
            (TokenType::Eof, "", 1),
        ],
    );
}

#[test]
fn test_number_with_fraction() {
    expect_tokens(
        "1.5 2.25",
        &[
            (TokenType::Integer, "1.5", 1),
            (TokenType::Integer, "2.25", 1),
            (TokenType::Eof, "", 1),
        ],
    );
}

#[test]
fn test_trailing_dot_not_consumed() {
    expect_tokens(
        "1. 2",
        &[
            (TokenType::Integer, "1", 1),
            (TokenType::Dot, ".", 1),
            (TokenType::Integer, "2", 1),
            (TokenType::Eof, "", 1),
        ],
    );
}

#[test]
fn test_letter_after_fraction_rejected() {
    expect_tokens(
        "1.5x",
        &[
            (TokenType::Error, "Unexpected character x", 1),
            (TokenType::Identifier, "x", 1),
            (TokenType::Eof, "", 1),
        ],
    );
}

#[test]
fn test_underscore_identifier() {
    expect_tokens(
        "_foo a_b2",
        &[
            (TokenType::Identifier, "_foo", 1),
            (TokenType::Identifier, "a_b2", 1),
            (TokenType::Eof, "", 1),
        ],
    );
}

#[test]
fn test_line_comment_runs_to_line_end() {
    expect_tokens(
        "a // b c d\ne",
        &[
            (TokenType::Identifier, "a", 1),
            (TokenType::Identifier, "e", 2),
            (TokenType::Eof, "", 2),
        ],
    );
}

#[test]
fn test_block_comment_counts_lines() {
    expect_tokens(
        "a /* b\nc\nd */ e",
        &[
            (TokenType::Identifier, "a", 1),
            (TokenType::Identifier, "e", 3),
            (TokenType::Eof, "", 3),
        ],
    );
}

#[test]
fn test_unterminated_block_comment_is_silent() {
    expect_tokens(
        "a /* b\nc",
        &[
            (TokenType::Identifier, "a", 1),
            (TokenType::Eof, "", 2),
        ],
    );
}

#[test]
fn test_lone_slash_is_a_token() {
    expect_tokens(
        "a / b",
        &[
            (TokenType::Identifier, "a", 1),
            (TokenType::Slash, "/", 1),
            (TokenType::Identifier, "b", 1),
            (TokenType::Eof, "", 1),
        ],
    );
}

#[test]
fn test_eof_is_stable() {
    let mut scanner = Scanner::new("x\n");
    let first = scanner.scan_token();
    assert_eq!(first.ttype, TokenType::Identifier);
    for _ in 0..3 {
        let tok = scanner.scan_token();
        assert_eq!(tok.ttype, TokenType::Eof);
        assert_eq!(tok.lexeme, "");
        assert_eq!(tok.line, 2);
    }
}

#[test]
fn test_empty_input() {
    expect_tokens("", &[(TokenType::Eof, "", 1), (TokenType::Eof, "", 1)]);
}

#[test]
fn test_span_coverage_concrete() {
    // P2 on a concrete input: the lexemes of ordinary tokens, with the
    // skipped regions put back in order, rebuild the source exactly.
    let input = "int x = 1; // tail\ny";
    let mut scanner = Scanner::new(input);
    let mut rebuilt = String::new();
    let mut consumed = 0usize;
    loop {
        let tok = scanner.scan_token();
        if tok.ttype == TokenType::Eof {
            break;
        }
        // Find the lexeme at or after the point reached so far; everything
        // before it was skipped whitespace or comment text.
        let at = input[consumed..].find(&tok.lexeme).expect("lexeme in source") + consumed;
        rebuilt.push_str(&input[consumed..at]);
        rebuilt.push_str(&tok.lexeme);
        consumed = at + tok.lexeme.len();
    }
    rebuilt.push_str(&input[consumed..]);
    assert_eq!(rebuilt, input);
}

#[test]
fn test_line_numbers_non_decreasing() {
    // P3 on a concrete input.
    let input = "a\nb /* x\ny */ c\n\"s\ntr\" d @ e\n";
    let mut scanner = Scanner::new(input);
    let mut last_line = 0usize;
    loop {
        let tok = scanner.scan_token();
        assert!(tok.line >= last_line);
        last_line = tok.line;
        if tok.ttype == TokenType::Eof {
            break;
        }
    }
}

#[test]
fn test_token_type_display_strings() {
    assert_eq!(TokenType::LeftParen.as_str(), "(");
    assert_eq!(TokenType::BangEqual.as_str(), "!=");
    assert_eq!(TokenType::Identifier.as_str(), "identifier");
    assert_eq!(TokenType::StringLiteral.as_str(), "string");
    assert_eq!(TokenType::Integer.as_str(), "integer");
    assert_eq!(TokenType::Return.as_str(), "return");
    assert_eq!(TokenType::Error.as_str(), "error");
    assert_eq!(TokenType::Eof.as_str(), "eof");
}

#[test]
fn test_token_new_sets_fields() {
    let tok = clex::token::Token::new(TokenType::Identifier, String::from("abc"), 7);
    assert_eq!(tok.ttype, TokenType::Identifier);
    assert_eq!(tok.lexeme, "abc");
    assert_eq!(tok.line, 7);
}

#[test]
fn test_matches_consumes_only_expected() {
    let mut scanner = Scanner::new("=x");
    assert!(scanner.matches('='));
    assert!(!scanner.matches('='));
    assert!(scanner.matches('x'));
    assert!(!scanner.matches('x'));
}
