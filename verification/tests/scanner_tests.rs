use clex::scanner::Scanner;
use clex::token::TokenType;

fn check_tokens(input: &str, expected: &[(TokenType, &str, usize)]) {
    let mut scanner = Scanner::new(input);
    for (ttype, lexeme, line) in expected {
        let tok = scanner.scan_token();
        assert_eq!(tok.ttype, *ttype);
        assert_eq!(tok.lexeme, *lexeme);
        assert_eq!(tok.line, *line);
    }
}

#[test]
fn test_multi_digit_constant() {
    let input = r#"
        int main(void) {
            // test case w/ multi-digit constant
            return 100;
        }
    "#;
    check_tokens(
        input,
        &[
            (TokenType::Int, "int", 2),
            (TokenType::Identifier, "main", 2),
            (TokenType::LeftParen, "(", 2),
            (TokenType::Void, "void", 2),
            (TokenType::RightParen, ")", 2),
            (TokenType::LeftBrace, "{", 2),
            (TokenType::Return, "return", 4),
            (TokenType::Integer, "100", 4),
            (TokenType::Semicolon, ";", 4),
            (TokenType::RightBrace, "}", 5),
            (TokenType::Eof, "", 6),
        ],
    );
}

#[test]
fn test_new_lines() {
    let input = r#"
        int
        main
        (
        void
        )
        {
        return
        0
        ;
        }
    "#;
    check_tokens(
        input,
        &[
            (TokenType::Int, "int", 2),
            (TokenType::Identifier, "main", 3),
            (TokenType::LeftParen, "(", 4),
            (TokenType::Void, "void", 5),
            (TokenType::RightParen, ")", 6),
            (TokenType::LeftBrace, "{", 7),
            (TokenType::Return, "return", 8),
            (TokenType::Integer, "0", 9),
            (TokenType::Semicolon, ";", 10),
            (TokenType::RightBrace, "}", 11),
            (TokenType::Eof, "", 12),
        ],
    );
}

#[test]
fn test_no_new_lines() {
    let input = r#"int main(void){return 0;}"#;
    check_tokens(
        input,
        &[
            (TokenType::Int, "int", 1),
            (TokenType::Identifier, "main", 1),
            (TokenType::LeftParen, "(", 1),
            (TokenType::Void, "void", 1),
            (TokenType::RightParen, ")", 1),
            (TokenType::LeftBrace, "{", 1),
            (TokenType::Return, "return", 1),
            (TokenType::Integer, "0", 1),
            (TokenType::Semicolon, ";", 1),
            (TokenType::RightBrace, "}", 1),
            (TokenType::Eof, "", 1),
        ],
    );
}

#[test]
fn test_with_spaces() {
    let input = r#"   int   main    (  void)  {   return  0 ; }"#;
    check_tokens(
        input,
        &[
            (TokenType::Int, "int", 1),
            (TokenType::Identifier, "main", 1),
            (TokenType::LeftParen, "(", 1),
            (TokenType::Void, "void", 1),
            (TokenType::RightParen, ")", 1),
            (TokenType::LeftBrace, "{", 1),
            (TokenType::Return, "return", 1),
            (TokenType::Integer, "0", 1),
            (TokenType::Semicolon, ";", 1),
            (TokenType::RightBrace, "}", 1),
            (TokenType::Eof, "", 1),
        ],
    );
}

#[test]
fn test_with_tabs() {
    let input = "int\tmain\t(\tvoid)\t{\treturn\t0\t;\t}";
    check_tokens(
        input,
        &[
            (TokenType::Int, "int", 1),
            (TokenType::Identifier, "main", 1),
            (TokenType::LeftParen, "(", 1),
            (TokenType::Void, "void", 1),
            (TokenType::RightParen, ")", 1),
            (TokenType::LeftBrace, "{", 1),
            (TokenType::Return, "return", 1),
            (TokenType::Integer, "0", 1),
            (TokenType::Semicolon, ";", 1),
            (TokenType::RightBrace, "}", 1),
            (TokenType::Eof, "", 1),
        ],
    );
}

#[test]
fn test_invalid_at_sign() {
    let input = r#"
        int main(void) {
            return 0@1;
        }
    "#;
    check_tokens(
        input,
        &[
            (TokenType::Int, "int", 2),
            (TokenType::Identifier, "main", 2),
            (TokenType::LeftParen, "(", 2),
            (TokenType::Void, "void", 2),
            (TokenType::RightParen, ")", 2),
            (TokenType::LeftBrace, "{", 2),
            (TokenType::Return, "return", 3),
            (TokenType::Integer, "0", 3),
            (TokenType::Error, "Unexpected character @", 3),
            (TokenType::Integer, "1", 3),
            (TokenType::Semicolon, ";", 3),
            (TokenType::RightBrace, "}", 4),
            (TokenType::Eof, "", 5),
        ],
    );
}

#[test]
fn test_invalid_backslash() {
    let input = r#"/* A single backslash is not a valid token. */
    \"#;
    check_tokens(
        input,
        &[
            (TokenType::Error, "Unexpected character \\", 2),
            (TokenType::Eof, "", 2),
        ],
    );
}

#[test]
fn test_invalid_backtick() {
    let input = r#"/* A backtick is not a valid token. */
    `"#;
    check_tokens(
        input,
        &[
            (TokenType::Error, "Unexpected character `", 2),
            (TokenType::Eof, "", 2),
        ],
    );
}

#[test]
fn test_invalid_identifier() {
    let input = r#"/* '1foo' is not a valid token, because identifier can't start with digits. */
        int main(void) {
        return 1foo;
    }"#;
    check_tokens(
        input,
        &[
            (TokenType::Int, "int", 2),
            (TokenType::Identifier, "main", 2),
            (TokenType::LeftParen, "(", 2),
            (TokenType::Void, "void", 2),
            (TokenType::RightParen, ")", 2),
            (TokenType::LeftBrace, "{", 2),
            (TokenType::Return, "return", 3),
            (TokenType::Error, "Unexpected character f", 3),
            (TokenType::Identifier, "foo", 3),
            (TokenType::Semicolon, ";", 3),
            (TokenType::RightBrace, "}", 4),
            (TokenType::Eof, "", 4),
        ],
    );
}

#[test]
fn test_invalid_identifier_2() {
    let input = r#"int main(void) {
        return @b;
    }"#;
    check_tokens(
        input,
        &[
            (TokenType::Int, "int", 1),
            (TokenType::Identifier, "main", 1),
            (TokenType::LeftParen, "(", 1),
            (TokenType::Void, "void", 1),
            (TokenType::RightParen, ")", 1),
            (TokenType::LeftBrace, "{", 1),
            (TokenType::Return, "return", 2),
            (TokenType::Error, "Unexpected character @", 2),
            (TokenType::Identifier, "b", 2),
            (TokenType::Semicolon, ";", 2),
            (TokenType::RightBrace, "}", 3),
            (TokenType::Eof, "", 3),
        ],
    );
}
