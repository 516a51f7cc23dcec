//! The mathematical model of the scan: spec functions that say, for any
//! source text, cursor position and line counter, where the next token
//! starts, what kind it has, what text it carries, and where the cursor
//! and the line counter stand afterwards. The executable scanner is
//! verified against these functions.

use vstd::prelude::*;

use crate::token::TokenType;

verus! {

/// Whether a character counts as Unicode-alphabetic. Given meaning by the
/// contract of `ext::char_is_alphabetic`, which relies on
/// `char::is_alphabetic`.
pub uninterp spec fn alphabetic(c: char) -> bool;

/// Blank characters consumed silently between tokens (the newline is
/// handled separately because it advances the line counter).
pub open spec fn is_blank(c: char) -> bool {
    c == ' ' || c == '\r' || c == '\t'
}

/// ASCII decimal digit.
pub open spec fn is_digit(c: char) -> bool {
    '0' <= c && c <= '9'
}

/// ASCII letter.
pub open spec fn is_ascii_letter(c: char) -> bool {
    ('a' <= c && c <= 'z') || ('A' <= c && c <= 'Z')
}

/// A character that may begin an identifier or keyword.
pub open spec fn is_ident_start(c: char) -> bool {
    alphabetic(c) || c == '_'
}

/// A character that may continue an identifier or keyword.
pub open spec fn is_ident_part(c: char) -> bool {
    alphabetic(c) || is_digit(c) || c == '_'
}

/// A cursor position together with the line counter at that position.
pub struct Loc {
    pub pos: int,
    pub line: int,
}

/// Where the whitespace-skipping loop stands: in ordinary code, inside a
/// line comment, or inside a block comment.
pub enum SkipMode {
    Code,
    LineComment,
    BlockComment,
}

/// One pass of whitespace and comment skipping, starting at `pos` in mode
/// `mode`: blanks are consumed, newlines are consumed and counted, `//`
/// consumes through the end of the line, and `/* ... */` consumes through
/// the closing delimiter, counting embedded newlines. A block comment left
/// open by the end of the input is consumed silently. The result is the
/// position of the first significant character (or the end of input) and
/// the line counter there.
pub open spec fn skip_from(s: Seq<char>, pos: int, line: int, mode: SkipMode) -> Loc
    decreases s.len() - pos,
{
    if pos < 0 || pos >= s.len() {
        Loc { pos, line }
    } else {
        match mode {
            SkipMode::Code => {
                let c = s[pos];
                if is_blank(c) {
                    skip_from(s, pos + 1, line, SkipMode::Code)
                } else if c == '\n' {
                    skip_from(s, pos + 1, line + 1, SkipMode::Code)
                } else if c == '/' && pos + 1 < s.len() && s[pos + 1] == '/' {
                    skip_from(s, pos + 2, line, SkipMode::LineComment)
                } else if c == '/' && pos + 1 < s.len() && s[pos + 1] == '*' {
                    skip_from(s, pos + 1, line, SkipMode::BlockComment)
                } else {
                    Loc { pos, line }
                }
            },
            SkipMode::LineComment => {
                if s[pos] == '\n' {
                    skip_from(s, pos + 1, line + 1, SkipMode::Code)
                } else {
                    skip_from(s, pos + 1, line, SkipMode::LineComment)
                }
            },
            SkipMode::BlockComment => {
                if s[pos] == '*' && pos + 1 < s.len() && s[pos + 1] == '/' {
                    skip_from(s, pos + 2, line, SkipMode::Code)
                } else if s[pos] == '\n' {
                    skip_from(s, pos + 1, line + 1, SkipMode::BlockComment)
                } else {
                    skip_from(s, pos + 1, line, SkipMode::BlockComment)
                }
            },
        }
    }
}

/// Whitespace and comment skipping as it runs before every token boundary.
pub open spec fn skip_ws(s: Seq<char>, pos: int, line: int) -> Loc {
    skip_from(s, pos, line, SkipMode::Code)
}

/// Scanning the body of a string literal from `pos` (just after the opening
/// quote): the position of the closing quote and the line counter there, or
/// the end of input if no closing quote remains.
pub open spec fn string_scan(s: Seq<char>, pos: int, line: int) -> Loc
    decreases s.len() - pos,
{
    if pos < 0 || pos >= s.len() {
        Loc { pos: s.len() as int, line }
    } else if s[pos] == '"' {
        Loc { pos, line }
    } else if s[pos] == '\n' {
        string_scan(s, pos + 1, line + 1)
    } else {
        string_scan(s, pos + 1, line)
    }
}

/// The position just past the maximal run of ASCII digits starting at `pos`.
pub open spec fn digits_end(s: Seq<char>, pos: int) -> int
    decreases s.len() - pos,
{
    if 0 <= pos < s.len() && is_digit(s[pos]) {
        digits_end(s, pos + 1)
    } else {
        pos
    }
}

/// The position just past the maximal run of identifier characters
/// starting at `pos`.
pub open spec fn ident_end(s: Seq<char>, pos: int) -> int
    decreases s.len() - pos,
{
    if 0 <= pos < s.len() && is_ident_part(s[pos]) {
        ident_end(s, pos + 1)
    } else {
        pos
    }
}

/// The end of a numeric literal whose first digit stands at `start`: the
/// maximal digit run, extended by a fractional part only when a `.` is
/// immediately followed by a further digit.
pub open spec fn number_end(s: Seq<char>, start: int) -> int {
    let de = digits_end(s, start + 1);
    if de < s.len() && s[de] == '.' && is_digit(char_at(s, de + 1)) {
        digits_end(s, de + 1)
    } else {
        de
    }
}

/// The character at `pos`, or the NUL sentinel when `pos` is outside the
/// input; what peeking at an exhausted input yields.
pub open spec fn char_at(s: Seq<char>, pos: int) -> char {
    if 0 <= pos < s.len() {
        s[pos]
    } else {
        '\u{0}'
    }
}

/// Exact, case-sensitive keyword classification of a complete lexeme. Any
/// lexeme that is not letter-for-letter one of the seven keywords is a
/// plain identifier.
pub open spec fn keyword_type(lex: Seq<char>) -> TokenType {
    if lex == seq!['v', 'o', 'i', 'd'] {
        TokenType::Void
    } else if lex == seq!['i', 'n', 't'] {
        TokenType::Int
    } else if lex == seq!['e', 'l', 's', 'e'] {
        TokenType::Else
    } else if lex == seq!['f', 'o', 'r'] {
        TokenType::For
    } else if lex == seq!['i', 'f'] {
        TokenType::If
    } else if lex == seq!['r', 'e', 't', 'u', 'r', 'n'] {
        TokenType::Return
    } else if lex == seq!['w', 'h', 'i', 'l', 'e'] {
        TokenType::While
    } else {
        TokenType::Identifier
    }
}

/// The kind of a token made of exactly one character, if that character
/// alone forms a token.
pub open spec fn single_kind(c: char) -> Option<TokenType> {
    if c == '(' {
        Some(TokenType::LeftParen)
    } else if c == ')' {
        Some(TokenType::RightParen)
    } else if c == '{' {
        Some(TokenType::LeftBrace)
    } else if c == '}' {
        Some(TokenType::RightBrace)
    } else if c == ';' {
        Some(TokenType::Semicolon)
    } else if c == ',' {
        Some(TokenType::Comma)
    } else if c == '.' {
        Some(TokenType::Dot)
    } else if c == '-' {
        Some(TokenType::Minus)
    } else if c == '+' {
        Some(TokenType::Plus)
    } else if c == '/' {
        Some(TokenType::Slash)
    } else if c == '*' {
        Some(TokenType::Star)
    } else {
        None
    }
}

/// The kind of a `!`, `=`, `<` or `>` token, one- or two-character
/// according to whether a `=` follows (maximal munch).
pub open spec fn pair_kind(c: char, extended: bool) -> TokenType {
    if c == '!' {
        if extended {
            TokenType::BangEqual
        } else {
            TokenType::Bang
        }
    } else if c == '=' {
        if extended {
            TokenType::EqualEqual
        } else {
            TokenType::Equal
        }
    } else if c == '<' {
        if extended {
            TokenType::LessEqual
        } else {
            TokenType::Less
        }
    } else {
        if extended {
            TokenType::GreaterEqual
        } else {
            TokenType::Greater
        }
    }
}

/// The text of an unexpected-character diagnostic naming `c`.
pub open spec fn unexpected_text(c: char) -> Seq<char> {
    "Unexpected character"@ + seq![' ', c]
}

/// The text of the unterminated-string diagnostic.
pub open spec fn unterminated_text() -> Seq<char> {
    "Unterminated string."@
}

/// Everything one scan step yields once the insignificant input before the
/// token has been skipped: the token's kind, text and reported line, the
/// cursor position after it, and the line counter after it.
pub struct ScanStep {
    pub kind: TokenType,
    pub text: Seq<char>,
    pub token_line: int,
    pub end: int,
    pub line_after: int,
}

/// The token produced at position `j` with line counter `line`, after
/// skipping has already run. Dispatches on the first character exactly as
/// the scanner does, in the same order.
pub open spec fn scan_at(s: Seq<char>, j: int, line: int) -> ScanStep {
    if j >= s.len() {
        ScanStep { kind: TokenType::Eof, text: Seq::empty(), token_line: line, end: j, line_after: line }
    } else {
        let c = s[j];
        if single_kind(c) is Some {
            ScanStep {
                kind: single_kind(c)->Some_0,
                text: s.subrange(j, j + 1),
                token_line: line,
                end: j + 1,
                line_after: line,
            }
        } else if c == '!' || c == '=' || c == '<' || c == '>' {
            let extended = j + 1 < s.len() && s[j + 1] == '=';
            let end = if extended {
                j + 2
            } else {
                j + 1
            };
            ScanStep {
                kind: pair_kind(c, extended),
                text: s.subrange(j, end),
                token_line: line,
                end,
                line_after: line,
            }
        } else if c == '"' {
            let sc = string_scan(s, j + 1, line);
            if sc.pos >= s.len() {
                ScanStep {
                    kind: TokenType::Error,
                    text: unterminated_text(),
                    token_line: sc.line,
                    end: s.len() as int,
                    line_after: sc.line,
                }
            } else {
                ScanStep {
                    kind: TokenType::StringLiteral,
                    text: s.subrange(j, sc.pos + 1),
                    token_line: line,
                    end: sc.pos + 1,
                    line_after: sc.line,
                }
            }
        } else if is_digit(c) {
            let end = number_end(s, j);
            if end < s.len() && is_ascii_letter(s[end]) {
                // The letter is reported but not consumed: the next call
                // rescans it as the start of the following lexeme.
                ScanStep {
                    kind: TokenType::Error,
                    text: unexpected_text(s[end]),
                    token_line: line,
                    end,
                    line_after: line,
                }
            } else {
                ScanStep {
                    kind: TokenType::Integer,
                    text: s.subrange(j, end),
                    token_line: line,
                    end,
                    line_after: line,
                }
            }
        } else if is_ident_start(c) {
            let end = ident_end(s, j + 1);
            ScanStep {
                kind: keyword_type(s.subrange(j, end)),
                text: s.subrange(j, end),
                token_line: line,
                end,
                line_after: line,
            }
        } else {
            ScanStep {
                kind: TokenType::Error,
                text: unexpected_text(c),
                token_line: line,
                end: j + 1,
                line_after: line,
            }
        }
    }
}

/// One whole call of the scanner from cursor `pos` and line counter
/// `line`: skip insignificant input, then produce the token standing there.
pub open spec fn next_step(s: Seq<char>, pos: int, line: int) -> ScanStep {
    let loc = skip_ws(s, pos, line);
    scan_at(s, loc.pos, loc.line)
}

} // verus!
