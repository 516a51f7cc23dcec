//! The executable scanner: a cursor over the decoded source text that
//! produces one token per call, verified against the model in
//! `crate::model`.

use vstd::prelude::*;

use crate::ext::char_is_alphabetic;
use crate::ext::push_char;
use crate::ext::str_chars;
use crate::model::char_at;
use crate::model::digits_end;
use crate::model::ident_end;
use crate::model::is_ascii_letter;
use crate::model::is_digit;
use crate::model::is_ident_part;
use crate::model::keyword_type;
use crate::model::next_step;
use crate::model::number_end;
use crate::model::skip_from;
use crate::model::skip_ws;
use crate::model::string_scan;
use crate::model::unexpected_text;
use crate::model::unterminated_text;
use crate::model::SkipMode;
use crate::laws::lemma_keyword_exactness;
use crate::token::Token;
use crate::token::TokenType;

verus! {

/// ASCII decimal digit test.
fn is_digit_ch(c: char) -> (r: bool)
    ensures
        r == is_digit(c),
{
    '0' <= c && c <= '9'
}

/// ASCII letter test.
fn is_ascii_letter_ch(c: char) -> (r: bool)
    ensures
        r == is_ascii_letter(c),
{
    ('a' <= c && c <= 'z') || ('A' <= c && c <= 'Z')
}

/// The scanner: the source text, held immutably as decoded characters for
/// the scanner's lifetime, the start of the current lexeme, the cursor,
/// and the 1-based line counter.
pub struct Scanner {
    source: Vec<char>,
    start: usize,
    current: usize,
    line: usize,
}

impl Scanner {
    /// The source text as a sequence of characters.
    pub closed spec fn src(&self) -> Seq<char> {
        self.source@
    }

    /// Offset where the current candidate lexeme begins.
    pub closed spec fn start_pos(&self) -> int {
        self.start as int
    }

    /// Offset of the next unconsumed character.
    pub closed spec fn cursor(&self) -> int {
        self.current as int
    }

    /// The current line counter.
    pub closed spec fn line_no(&self) -> int {
        self.line as int
    }

    /// Well-formedness: the cursor fields sit inside the source, and the
    /// line counter never outruns the consumed input (it starts at 1 and
    /// grows only when a newline is consumed or reached).
    pub closed spec fn wf(&self) -> bool {
        &&& self.start <= self.current <= self.source@.len()
        &&& self.source@.len() < usize::MAX
        &&& 1 <= self.line
        &&& self.line <= self.current + 1
    }

    /// A fresh scanner over `source`, at the first character of line 1.
    pub fn new(source: &str) -> (sc: Self)
        requires
            source@.len() < usize::MAX,
        ensures
            sc.wf(),
            sc.src() == source@,
            sc.start_pos() == 0,
            sc.cursor() == 0,
            sc.line_no() == 1,
    {
        Self { source: str_chars(source), start: 0, current: 0, line: 1 }
    }

    fn is_at_end(&self) -> (r: bool)
        requires
            self.wf(),
        ensures
            r == (self.cursor() == self.src().len()),
    {
        self.current == self.source.len()
    }

    /// The character under the cursor, or NUL at the end of input.
    fn peek(&self) -> (c: char)
        requires
            self.wf(),
        ensures
            c == char_at(self.src(), self.cursor()),
    {
        if self.is_at_end() {
            '\u{0}'
        } else {
            self.source[self.current]
        }
    }

    /// The character after the cursor, or NUL past the end of input.
    fn peek_next(&self) -> (c: char)
        requires
            self.wf(),
        ensures
            c == char_at(self.src(), self.cursor() + 1),
    {
        if self.current + 1 >= self.source.len() {
            '\u{0}'
        } else {
            self.source[self.current + 1]
        }
    }

    /// Consume and return the character under the cursor.
    fn advance(&mut self) -> (c: char)
        requires
            old(self).wf(),
            old(self).cursor() < old(self).src().len(),
        ensures
            final(self).wf(),
            final(self).src() == old(self).src(),
            final(self).start_pos() == old(self).start_pos(),
            final(self).line_no() == old(self).line_no(),
            final(self).cursor() == old(self).cursor() + 1,
            c == old(self).src()[old(self).cursor()],
    {
        self.current = self.current + 1;
        self.source[self.current - 1]
    }

    /// Consume the character under the cursor exactly when it equals
    /// `expected`.
    pub fn matches(&mut self, expected: char) -> (r: bool)
        requires
            old(self).wf(),
        ensures
            final(self).wf(),
            final(self).src() == old(self).src(),
            final(self).start_pos() == old(self).start_pos(),
            final(self).line_no() == old(self).line_no(),
            r == (old(self).cursor() < old(self).src().len() && old(self).src()[old(self).cursor()]
                == expected),
            final(self).cursor() == old(self).cursor() + (if r {
                1int
            } else {
                0int
            }),
    {
        if self.is_at_end() {
            return false;
        }
        if self.source[self.current] != expected {
            return false;
        }
        self.current = self.current + 1;
        true
    }

    /// The source text between `lo` and `hi`, as an owned string.
    fn range_string(&self, lo: usize, hi: usize) -> (r: String)
        requires
            self.wf(),
            lo <= hi <= self.src().len(),
        ensures
            r@ == self.src().subrange(lo as int, hi as int),
    {
        let mut r = String::new();
        let mut i = lo;
        proof {
            assert(r@ =~= self.src().subrange(lo as int, lo as int));
        }
        while i < hi
            invariant
                self.wf(),
                lo <= i <= hi <= self.src().len(),
                r@ == self.src().subrange(lo as int, i as int),
            decreases hi - i,
        {
            let c = self.source[i];
            push_char(&mut r, c);
            i = i + 1;
            proof {
                assert(r@ =~= self.src().subrange(lo as int, i as int));
            }
        }
        r
    }

    /// A token of kind `ttype` for the current lexeme span, at the current
    /// line.
    fn make_token(&self, ttype: TokenType) -> (t: Token)
        requires
            self.wf(),
        ensures
            t.ttype == ttype,
            t.lexeme@ == self.src().subrange(self.start_pos(), self.cursor()),
            t.line == self.line_no(),
    {
        Token::new(ttype, self.range_string(self.start, self.current), self.line)
    }

    /// An error token whose text names the offending character, at the
    /// current line.
    fn error_token(&self, message: &str, c: char) -> (t: Token)
        requires
            self.wf(),
        ensures
            t.ttype == TokenType::Error,
            t.lexeme@ == message@ + seq![' ', c],
            t.line == self.line_no(),
    {
        let mut lexeme = String::from_str(message);
        push_char(&mut lexeme, ' ');
        push_char(&mut lexeme, c);
        proof {
            assert(lexeme@ =~= message@ + seq![' ', c]);
        }
        Token { ttype: TokenType::Error, lexeme, line: self.line }
    }

    /// An error token carrying `message` verbatim, at the current line.
    fn error_message(&self, message: &str) -> (t: Token)
        requires
            self.wf(),
        ensures
            t.ttype == TokenType::Error,
            t.lexeme@ == message@,
            t.line == self.line_no(),
    {
        Token { ttype: TokenType::Error, lexeme: String::from_str(message), line: self.line }
    }

    /// Skip blanks, newlines and comments up to the next significant
    /// character, counting newlines into the line counter.
    #[verifier::loop_isolation(false)]
    fn skip_whitespace(&mut self)
        requires
            old(self).wf(),
        ensures
            final(self).wf(),
            final(self).src() == old(self).src(),
            final(self).start_pos() == old(self).start_pos(),
            final(self).cursor() == skip_ws(
                old(self).src(),
                old(self).cursor(),
                old(self).line_no(),
            ).pos,
            final(self).line_no() == skip_ws(
                old(self).src(),
                old(self).cursor(),
                old(self).line_no(),
            ).line,
    {
        let ghost s = self.source@;
        let ghost target = skip_ws(s, self.current as int, self.line as int);
        let ghost start0 = self.start;
        loop
            invariant
                self.wf(),
                self.source@ == s,
                self.start == start0,
                skip_from(s, self.current as int, self.line as int, SkipMode::Code) == target,
            decreases s.len() - self.current,
        {
            let c = self.peek();
            if c == ' ' || c == '\r' || c == '\t' {
                self.advance();
            } else if c == '\n' {
                self.advance();
                self.line = self.line + 1;
            } else if c == '/' {
                let n = self.peek_next();
                if n == '/' {
                    proof {
                        let cur = self.current as int;
                        let ln = self.line as int;
                        assert(skip_from(s, cur + 1, ln, SkipMode::LineComment) == skip_from(
                            s,
                            cur + 2,
                            ln,
                            SkipMode::LineComment,
                        ));
                        assert(skip_from(s, cur, ln, SkipMode::LineComment) == skip_from(
                            s,
                            cur + 2,
                            ln,
                            SkipMode::LineComment,
                        ));
                    }
                    // A line comment goes until the end of the line; the
                    // terminating newline is left for the next pass.
                    let ghost entry = self.current;
                    while self.peek() != '\n' && !self.is_at_end()
                        invariant
                            self.wf(),
                            self.source@ == s,
                            self.start == start0,
                            entry <= self.current,
                            skip_from(
                                s,
                                self.current as int,
                                self.line as int,
                                SkipMode::LineComment,
                            ) == target,
                        decreases s.len() - self.current,
                    {
                        self.advance();
                    }
                } else if n == '*' {
                    // A block comment goes until the closing delimiter, or
                    // silently until the end of input if none remains. A
                    // newline is counted as soon as the cursor lands on it,
                    // before it is consumed: the invariant's first branch
                    // accounts for a newline under the cursor that the line
                    // counter has already taken in.
                    let ghost entry = self.current;
                    self.advance();
                    while !(self.peek() == '*' && self.peek_next() == '/') && !self.is_at_end()
                        invariant
                            self.wf(),
                            self.source@ == s,
                            self.start == start0,
                            entry < self.current,
                            target == (if self.current < s.len() && s[self.current as int] == '\n' {
                                skip_from(
                                    s,
                                    self.current as int + 1,
                                    self.line as int,
                                    SkipMode::BlockComment,
                                )
                            } else {
                                skip_from(
                                    s,
                                    self.current as int,
                                    self.line as int,
                                    SkipMode::BlockComment,
                                )
                            }),
                        decreases s.len() - self.current,
                    {
                        let ghost cur = self.current as int;
                        let ghost ln = self.line as int;
                        self.advance();
                        if self.peek() == '\n' {
                            self.line = self.line + 1;
                        }
                        proof {
                            if s[cur] != '\n' {
                                assert(skip_from(s, cur, ln, SkipMode::BlockComment) == skip_from(
                                    s,
                                    cur + 1,
                                    ln,
                                    SkipMode::BlockComment,
                                ));
                            }
                            if cur + 1 < s.len() && s[cur + 1] == '\n' {
                                assert(skip_from(s, cur + 1, ln, SkipMode::BlockComment)
                                    == skip_from(s, cur + 2, ln + 1, SkipMode::BlockComment));
                            }
                        }
                    }
                    if !self.is_at_end() {
                        proof {
                            let cur = self.current as int;
                            let ln = self.line as int;
                            assert(skip_from(s, cur, ln, SkipMode::BlockComment) == skip_from(
                                s,
                                cur + 2,
                                ln,
                                SkipMode::Code,
                            ));
                        }
                        self.advance();
                        self.advance();
                    }
                } else {
                    return ;
                }
            } else {
                return ;
            }
        }
    }

    /// Scan a string literal; the opening quote has just been consumed.
    /// On success the token spans both quotes and reports the line where
    /// the literal started; if the input ends first, an error token is
    /// reported at the line where the scan stopped.
    fn string(&mut self) -> (t: Token)
        requires
            old(self).wf(),
            old(self).cursor() == old(self).start_pos() + 1,
        ensures
            final(self).wf(),
            final(self).src() == old(self).src(),
            final(self).start_pos() == old(self).start_pos(),
            ({
                let sc = string_scan(old(self).src(), old(self).cursor(), old(self).line_no());
                if sc.pos >= old(self).src().len() {
                    &&& t.ttype == TokenType::Error
                    &&& t.lexeme@ == unterminated_text()
                    &&& t.line == sc.line
                    &&& final(self).cursor() == old(self).src().len()
                    &&& final(self).line_no() == sc.line
                } else {
                    &&& t.ttype == TokenType::StringLiteral
                    &&& t.lexeme@ == old(self).src().subrange(old(self).start_pos(), sc.pos + 1)
                    &&& t.line == old(self).line_no()
                    &&& final(self).cursor() == sc.pos + 1
                    &&& final(self).line_no() == sc.line
                }
            }),
    {
        let ghost s = self.source@;
        let ghost target = string_scan(s, self.current as int, self.line as int);
        let ghost start0 = self.start;
        let line_start = self.line;
        while self.peek() != '"' && !self.is_at_end()
            invariant
                self.wf(),
                self.source@ == s,
                self.start == start0,
                string_scan(s, self.current as int, self.line as int) == target,
            decreases s.len() - self.current,
        {
            let c = self.advance();
            if c == '\n' {
                self.line = self.line + 1;
            }
        }
        if self.is_at_end() {
            return self.error_message("Unterminated string.");
        }
        self.advance();
        Token::new(TokenType::StringLiteral, self.range_string(self.start, self.current), line_start)
    }

    /// Scan past the maximal run of ASCII digits under the cursor.
    fn consume_digits(&mut self)
        requires
            old(self).wf(),
        ensures
            final(self).wf(),
            final(self).src() == old(self).src(),
            final(self).start_pos() == old(self).start_pos(),
            final(self).line_no() == old(self).line_no(),
            final(self).cursor() == digits_end(old(self).src(), old(self).cursor()),
    {
        let ghost s = self.source@;
        let ghost target = digits_end(s, self.current as int);
        let ghost start0 = self.start;
        while is_digit_ch(self.peek())
            invariant
                self.wf(),
                self.source@ == s,
                self.start == start0,
                self.line == old(self).line,
                digits_end(s, self.current as int) == target,
            decreases s.len() - self.current,
        {
            self.advance();
        }
    }

    /// Scan a numeric literal; the first digit has just been consumed. A
    /// fractional part is taken only when a `.` is immediately followed by
    /// a digit. A literal followed directly by an ASCII letter is rejected:
    /// the letter is reported as unexpected and left for the next call.
    fn number(&mut self) -> (t: Token)
        requires
            old(self).wf(),
            old(self).cursor() == old(self).start_pos() + 1,
        ensures
            final(self).wf(),
            final(self).src() == old(self).src(),
            final(self).start_pos() == old(self).start_pos(),
            final(self).line_no() == old(self).line_no(),
            ({
                let s = old(self).src();
                let end = number_end(s, old(self).start_pos());
                &&& final(self).cursor() == end
                &&& if end < s.len() && is_ascii_letter(s[end]) {
                    &&& t.ttype == TokenType::Error
                    &&& t.lexeme@ == unexpected_text(s[end])
                    &&& t.line == old(self).line_no()
                } else {
                    &&& t.ttype == TokenType::Integer
                    &&& t.lexeme@ == s.subrange(old(self).start_pos(), end)
                    &&& t.line == old(self).line_no()
                }
            }),
    {
        self.consume_digits();
        // Look for a fractional part.
        if self.peek() == '.' && is_digit_ch(self.peek_next()) {
            // Consume the '.'.
            self.advance();
            self.consume_digits();
        }
        let c = self.peek();
        if is_ascii_letter_ch(c) {
            return self.error_token("Unexpected character", c);
        }
        self.make_token(TokenType::Integer)
    }

    /// Scan a numeric literal without the trailing-letter check: the plain
    /// digits-and-fraction form, always emitted as an integer token.
    fn _number(&mut self) -> (t: Token)
        requires
            old(self).wf(),
            old(self).cursor() == old(self).start_pos() + 1,
        ensures
            final(self).wf(),
            final(self).src() == old(self).src(),
            final(self).start_pos() == old(self).start_pos(),
            final(self).line_no() == old(self).line_no(),
            final(self).cursor() == number_end(old(self).src(), old(self).start_pos()),
            t.ttype == TokenType::Integer,
            t.lexeme@ == old(self).src().subrange(
                old(self).start_pos(),
                number_end(old(self).src(), old(self).start_pos()),
            ),
            t.line == old(self).line_no(),
    {
        self.consume_digits();
        // Look for a fractional part.
        if self.peek() == '.' && is_digit_ch(self.peek_next()) {
            // Consume the '.'.
            self.advance();
            self.consume_digits();
        }
        self.make_token(TokenType::Integer)
    }

    /// Whether the character under the cursor may continue an identifier.
    fn peek_is_identifier(&self) -> (r: bool)
        requires
            self.wf(),
        ensures
            r == is_ident_part(char_at(self.src(), self.cursor())),
    {
        let c = self.peek();
        char_is_alphabetic(c) || is_digit_ch(c) || c == '_'
    }

    /// Scan an identifier or keyword; its first character has just been
    /// consumed.
    fn identifier(&mut self) -> (t: Token)
        requires
            old(self).wf(),
            old(self).cursor() == old(self).start_pos() + 1,
        ensures
            final(self).wf(),
            final(self).src() == old(self).src(),
            final(self).start_pos() == old(self).start_pos(),
            final(self).line_no() == old(self).line_no(),
            ({
                let s = old(self).src();
                let end = ident_end(s, old(self).cursor());
                &&& final(self).cursor() == end
                &&& t.ttype == keyword_type(s.subrange(old(self).start_pos(), end))
                &&& t.lexeme@ == s.subrange(old(self).start_pos(), end)
                &&& t.line == old(self).line_no()
            }),
    {
        let ghost s = self.source@;
        let ghost target = ident_end(s, self.current as int);
        let ghost start0 = self.start;
        while !self.is_at_end() && self.peek_is_identifier()
            invariant
                self.wf(),
                self.source@ == s,
                self.start == start0,
                self.start < self.current,
                self.line == old(self).line,
                ident_end(s, self.current as int) == target,
            decreases s.len() - self.current,
        {
            self.advance();
        }
        let ttype = self.identifier_type();
        self.make_token(ttype)
    }

    /// Classify the completed identifier lexeme: dispatch on its first
    /// character, then check the remainder exactly against the one or two
    /// keywords that begin that way.
    fn identifier_type(&self) -> (tt: TokenType)
        requires
            self.wf(),
            self.start_pos() < self.cursor(),
        ensures
            tt == keyword_type(self.src().subrange(self.start_pos(), self.cursor())),
    {
        let ghost lex = self.src().subrange(self.start_pos(), self.cursor());
        proof {
            lemma_keyword_exactness(lex);
        }
        match self.source[self.start] {
            'e' => {
                let r = self.check_keyword(1, 3, "lse", TokenType::Else);
                proof {
                    reveal_strlit("lse");
                    assert("lse"@ =~= seq!['e', 'l', 's', 'e'].subrange(1, 4));
                    assert(lex.subrange(0, 1) =~= seq!['e', 'l', 's', 'e'].subrange(0, 1));
                    self.lemma_tail_match(1, "lse", seq!['e', 'l', 's', 'e']);
                }
                r
            },
            'i' => {
                if self.current - self.start > 1 {
                    match self.source[self.start + 1] {
                        'n' => {
                            let r = self.check_keyword(2, 1, "t", TokenType::Int);
                            proof {
                                reveal_strlit("t");
                                assert("t"@ =~= seq!['i', 'n', 't'].subrange(2, 3));
                                assert(lex.subrange(0, 2) =~= seq!['i', 'n', 't'].subrange(0, 2));
                                self.lemma_tail_match(2, "t", seq!['i', 'n', 't']);
                                assert(lex[1] == 'n');
                                assert(!(lex =~= seq!['i', 'f']));
                            }
                            r
                        },
                        'f' => {
                            if self.current - self.start == 2 {
                                proof {
                                    assert(lex =~= seq!['i', 'f']);
                                }
                                TokenType::If
                            } else {
                                proof {
                                    assert(lex[1] == 'f');
                                    assert(!(lex =~= seq!['i', 'n', 't']));
                                    assert(!(lex =~= seq!['i', 'f']));
                                }
                                TokenType::Identifier
                            }
                        },
                        _ => {
                            proof {
                                assert(!(lex =~= seq!['i', 'n', 't']));
                                assert(!(lex =~= seq!['i', 'f']));
                            }
                            TokenType::Identifier
                        },
                    }
                } else {
                    proof {
                        assert(!(lex =~= seq!['i', 'n', 't']));
                        assert(!(lex =~= seq!['i', 'f']));
                    }
                    TokenType::Identifier
                }
            },
            'f' => {
                if self.current - self.start > 1 {
                    match self.source[self.start + 1] {
                        'o' => {
                            let r = self.check_keyword(2, 1, "r", TokenType::For);
                            proof {
                                reveal_strlit("r");
                                assert("r"@ =~= seq!['f', 'o', 'r'].subrange(2, 3));
                                assert(lex.subrange(0, 2) =~= seq!['f', 'o', 'r'].subrange(0, 2));
                                self.lemma_tail_match(2, "r", seq!['f', 'o', 'r']);
                            }
                            r
                        },
                        _ => {
                            proof {
                                assert(!(lex =~= seq!['f', 'o', 'r']));
                            }
                            TokenType::Identifier
                        },
                    }
                } else {
                    proof {
                        assert(!(lex =~= seq!['f', 'o', 'r']));
                    }
                    TokenType::Identifier
                }
            },
            'r' => {
                let r = self.check_keyword(1, 5, "eturn", TokenType::Return);
                proof {
                    reveal_strlit("eturn");
                    assert("eturn"@ =~= seq!['r', 'e', 't', 'u', 'r', 'n'].subrange(1, 6));
                    assert(lex.subrange(0, 1) =~= seq!['r', 'e', 't', 'u', 'r', 'n'].subrange(0, 1));
                    self.lemma_tail_match(1, "eturn", seq!['r', 'e', 't', 'u', 'r', 'n']);
                }
                r
            },
            'w' => {
                let r = self.check_keyword(1, 4, "hile", TokenType::While);
                proof {
                    reveal_strlit("hile");
                    assert("hile"@ =~= seq!['w', 'h', 'i', 'l', 'e'].subrange(1, 5));
                    assert(lex.subrange(0, 1) =~= seq!['w', 'h', 'i', 'l', 'e'].subrange(0, 1));
                    self.lemma_tail_match(1, "hile", seq!['w', 'h', 'i', 'l', 'e']);
                }
                r
            },
            'v' => {
                let r = self.check_keyword(1, 3, "oid", TokenType::Void);
                proof {
                    reveal_strlit("oid");
                    assert("oid"@ =~= seq!['v', 'o', 'i', 'd'].subrange(1, 4));
                    assert(lex.subrange(0, 1) =~= seq!['v', 'o', 'i', 'd'].subrange(0, 1));
                    self.lemma_tail_match(1, "oid", seq!['v', 'o', 'i', 'd']);
                }
                r
            },
            _ => TokenType::Identifier,
        }
    }

    /// The condition checked by `check_keyword` — right length, and the
    /// lexeme's tail from `offset` equal to `rest` — holds exactly when the
    /// whole lexeme equals the keyword `kw` whose head it already matched.
    proof fn lemma_tail_match(&self, offset: int, rest: &str, kw: Seq<char>)
        requires
            self.wf(),
            self.start_pos() < self.cursor(),
            0 < offset <= kw.len(),
            rest@ =~= kw.subrange(offset, kw.len() as int),
            self.src().subrange(self.start_pos(), self.cursor()).subrange(0, offset) =~= kw.subrange(
                0,
                offset,
            ),
        ensures
            (self.cursor() - self.start_pos() == kw.len() && self.src().subrange(
                self.start_pos() + offset,
                self.cursor(),
            ) == rest@) <==> self.src().subrange(self.start_pos(), self.cursor()) == kw,
    {
        let lex = self.src().subrange(self.start_pos(), self.cursor());
        if self.cursor() - self.start_pos() == kw.len() {
            let tail = self.src().subrange(self.start_pos() + offset, self.cursor());
            if tail == rest@ {
                assert forall|i: int| 0 <= i < kw.len() implies lex[i] == kw[i] by {
                    if i < offset {
                        assert(lex.subrange(0, offset)[i] == lex[i]);
                        assert(kw.subrange(0, offset)[i] == kw[i]);
                    } else {
                        assert(tail[i - offset] == lex[i]);
                        assert(rest@[i - offset] == kw.subrange(offset, kw.len() as int)[i
                            - offset]);
                    }
                }
                assert(lex =~= kw);
            }
            if lex == kw {
                assert forall|i: int| 0 <= i < tail.len() implies tail[i] == rest@[i] by {
                    assert(tail[i] == lex[offset + i]);
                    assert(rest@[i] == kw.subrange(offset, kw.len() as int)[i]);
                }
                assert(tail =~= rest@);
            }
        } else {
            assert(lex.len() != kw.len());
        }
    }

    /// Compare the tail of the current lexeme, beginning `offset`
    /// characters in, against `rest`; the lexeme matches the keyword of
    /// kind `ttype` exactly when the lengths agree and the tail equals
    /// `rest`.
    fn check_keyword(&self, offset: usize, length: usize, rest: &str, ttype: TokenType) -> (r:
        TokenType)
        requires
            self.wf(),
            offset + length <= usize::MAX,
        ensures
            r == (if self.cursor() - self.start_pos() == offset + length && self.src().subrange(
                self.start_pos() + offset,
                self.cursor(),
            ) == rest@ {
                ttype
            } else {
                TokenType::Identifier
            }),
    {
        if self.current - self.start == offset + length {
            let tail = self.range_string(self.start + offset, self.current);
            let rest_string = String::from_str(rest);
            if tail == rest_string {
                return ttype;
            }
        }
        TokenType::Identifier
    }

    /// Produce the next token: skip insignificant input, then classify the
    /// lexeme starting at the cursor. Once the input is exhausted, every
    /// further call returns an end-of-input token at the same line.
    pub fn scan_token(&mut self) -> (t: Token)
        requires
            old(self).wf(),
        ensures
            final(self).wf(),
            final(self).src() == old(self).src(),
            ({
                let step = next_step(old(self).src(), old(self).cursor(), old(self).line_no());
                &&& t.ttype == step.kind
                &&& t.lexeme@ == step.text
                &&& t.line == step.token_line
                &&& final(self).cursor() == step.end
                &&& final(self).line_no() == step.line_after
                &&& final(self).start_pos() == skip_ws(
                    old(self).src(),
                    old(self).cursor(),
                    old(self).line_no(),
                ).pos
            }),
    {
        let ghost s = self.source@;
        self.skip_whitespace();
        self.start = self.current;
        let ghost j = self.current as int;
        let ghost ln = self.line as int;
        if self.is_at_end() {
            let t = self.make_token(TokenType::Eof);
            proof {
                assert(t.lexeme@ =~= Seq::<char>::empty());
            }
            return t;
        }
        let c = self.advance();
        if c == '(' {
            self.make_token(TokenType::LeftParen)
        } else if c == ')' {
            self.make_token(TokenType::RightParen)
        } else if c == '{' {
            self.make_token(TokenType::LeftBrace)
        } else if c == '}' {
            self.make_token(TokenType::RightBrace)
        } else if c == ';' {
            self.make_token(TokenType::Semicolon)
        } else if c == ',' {
            self.make_token(TokenType::Comma)
        } else if c == '.' {
            self.make_token(TokenType::Dot)
        } else if c == '-' {
            self.make_token(TokenType::Minus)
        } else if c == '+' {
            self.make_token(TokenType::Plus)
        } else if c == '/' {
            self.make_token(TokenType::Slash)
        } else if c == '*' {
            self.make_token(TokenType::Star)
        } else if c == '!' {
            let extended = self.matches('=');
            self.make_token(
                if extended {
                    TokenType::BangEqual
                } else {
                    TokenType::Bang
                },
            )
        } else if c == '=' {
            let extended = self.matches('=');
            self.make_token(
                if extended {
                    TokenType::EqualEqual
                } else {
                    TokenType::Equal
                },
            )
        } else if c == '<' {
            let extended = self.matches('=');
            self.make_token(
                if extended {
                    TokenType::LessEqual
                } else {
                    TokenType::Less
                },
            )
        } else if c == '>' {
            let extended = self.matches('=');
            self.make_token(
                if extended {
                    TokenType::GreaterEqual
                } else {
                    TokenType::Greater
                },
            )
        } else if c == '"' {
            self.string()
        } else if is_digit_ch(c) {
            self.number()
        } else if char_is_alphabetic(c) || c == '_' {
            self.identifier()
        } else {
            self.error_token("Unexpected character", c)
        }
    }
}

} // verus!
