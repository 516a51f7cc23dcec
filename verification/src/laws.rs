//! Properties of the scan model that hold of every input: termination and
//! progress of the token stream, reconstruction of the source from the
//! consumed spans, monotone line numbers, exact keyword matching, and
//! maximal munch for the two-character operators.

use vstd::prelude::*;

use crate::model::char_at;
use crate::model::digits_end;
use crate::model::ident_end;
use crate::model::is_blank;
use crate::model::is_digit;
use crate::model::is_ident_part;
use crate::model::keyword_type;
use crate::model::pair_kind;
use crate::model::next_step;
use crate::model::number_end;
use crate::model::scan_at;
use crate::model::skip_from;
use crate::model::skip_ws;
use crate::model::string_scan;
use crate::model::ScanStep;
use crate::model::SkipMode;
use crate::token::TokenType;

verus! {

/// Skipping never moves the cursor backwards, never moves the line counter
/// down, and never runs past the end of the input.
pub proof fn lemma_skip_bounds(s: Seq<char>, pos: int, line: int, mode: SkipMode)
    ensures
        skip_from(s, pos, line, mode).pos >= pos,
        skip_from(s, pos, line, mode).line >= line,
        pos <= s.len() ==> skip_from(s, pos, line, mode).pos <= s.len(),
    decreases s.len() - pos,
{
    if 0 <= pos < s.len() {
        match mode {
            SkipMode::Code => {
                let c = s[pos];
                if is_blank(c) {
                    lemma_skip_bounds(s, pos + 1, line, SkipMode::Code);
                } else if c == '\n' {
                    lemma_skip_bounds(s, pos + 1, line + 1, SkipMode::Code);
                } else if c == '/' && pos + 1 < s.len() && s[pos + 1] == '/' {
                    lemma_skip_bounds(s, pos + 2, line, SkipMode::LineComment);
                } else if c == '/' && pos + 1 < s.len() && s[pos + 1] == '*' {
                    lemma_skip_bounds(s, pos + 1, line, SkipMode::BlockComment);
                }
            },
            SkipMode::LineComment => {
                if s[pos] == '\n' {
                    lemma_skip_bounds(s, pos + 1, line + 1, SkipMode::Code);
                } else {
                    lemma_skip_bounds(s, pos + 1, line, SkipMode::LineComment);
                }
            },
            SkipMode::BlockComment => {
                if s[pos] == '*' && pos + 1 < s.len() && s[pos + 1] == '/' {
                    lemma_skip_bounds(s, pos + 2, line, SkipMode::Code);
                } else if s[pos] == '\n' {
                    lemma_skip_bounds(s, pos + 1, line + 1, SkipMode::BlockComment);
                } else {
                    lemma_skip_bounds(s, pos + 1, line, SkipMode::BlockComment);
                }
            },
        }
    }
}

/// Scanning a string literal body stops at or before the end of the input,
/// never before the position it started at, and never lowers the line
/// counter.
pub proof fn lemma_string_scan_bounds(s: Seq<char>, pos: int, line: int)
    ensures
        string_scan(s, pos, line).pos <= s.len(),
        pos <= s.len() ==> string_scan(s, pos, line).pos >= pos,
        string_scan(s, pos, line).line >= line,
    decreases s.len() - pos,
{
    if 0 <= pos < s.len() {
        if s[pos] == '"' {
        } else if s[pos] == '\n' {
            lemma_string_scan_bounds(s, pos + 1, line + 1);
        } else {
            lemma_string_scan_bounds(s, pos + 1, line);
        }
    }
}

/// The end of a digit run lies at or after its start, and within the input
/// if the start was.
pub proof fn lemma_digits_bounds(s: Seq<char>, pos: int)
    ensures
        digits_end(s, pos) >= pos,
        pos <= s.len() ==> digits_end(s, pos) <= s.len(),
    decreases s.len() - pos,
{
    if 0 <= pos < s.len() && is_digit(s[pos]) {
        lemma_digits_bounds(s, pos + 1);
    }
}

/// The end of an identifier run lies at or after its start, and within the
/// input if the start was.
pub proof fn lemma_ident_bounds(s: Seq<char>, pos: int)
    ensures
        ident_end(s, pos) >= pos,
        pos <= s.len() ==> ident_end(s, pos) <= s.len(),
    decreases s.len() - pos,
{
    if 0 <= pos < s.len() && is_ident_part(s[pos]) {
        lemma_ident_bounds(s, pos + 1);
    }
}

/// A numeric literal consumes at least its first digit and stays within
/// the input.
pub proof fn lemma_number_bounds(s: Seq<char>, start: int)
    ensures
        number_end(s, start) > start,
        start < s.len() ==> number_end(s, start) <= s.len(),
{
    lemma_digits_bounds(s, start + 1);
    let de = digits_end(s, start + 1);
    if de < s.len() && s[de] == '.' && is_digit(char_at(s, de + 1)) {
        lemma_digits_bounds(s, de + 1);
    }
}

/// Totality and progress of one call: every call made strictly inside the
/// input consumes at least one character, the cursor never leaves the
/// input, and once the input is exhausted every further call yields the
/// same end-of-input token without moving.
pub proof fn lemma_scan_progress(s: Seq<char>, pos: int, line: int)
    ensures
        next_step(s, pos, line).kind != TokenType::Eof ==> pos < next_step(s, pos, line).end,
        0 <= pos < s.len() ==> pos < next_step(s, pos, line).end,
        pos <= s.len() ==> next_step(s, pos, line).end <= s.len(),
        pos >= s.len() ==> next_step(s, pos, line) == (ScanStep {
            kind: TokenType::Eof,
            text: Seq::<char>::empty(),
            token_line: line,
            end: pos,
            line_after: line,
        }),
{
    lemma_skip_bounds(s, pos, line, SkipMode::Code);
    let loc = skip_ws(s, pos, line);
    if loc.pos < s.len() {
        lemma_string_scan_bounds(s, loc.pos + 1, loc.line);
        lemma_number_bounds(s, loc.pos);
        lemma_ident_bounds(s, loc.pos + 1);
    }
}

/// The line a token is reported at never lies before the line counter the
/// call started with, and never after the counter the call ends with: line
/// numbers are non-decreasing across successive calls.
pub proof fn lemma_line_monotonic(s: Seq<char>, pos: int, line: int)
    ensures
        line <= next_step(s, pos, line).token_line,
        next_step(s, pos, line).token_line <= next_step(s, pos, line).line_after,
{
    lemma_skip_bounds(s, pos, line, SkipMode::Code);
    let loc = skip_ws(s, pos, line);
    if loc.pos < s.len() {
        lemma_string_scan_bounds(s, loc.pos + 1, loc.line);
    }
}

/// The whole token stream from a given state: each call's step, up to and
/// including the first end-of-input step.
pub open spec fn token_stream(s: Seq<char>, pos: int, line: int) -> Seq<ScanStep>
    decreases s.len() - pos + 1,
        via token_stream_decreases
{
    let step = next_step(s, pos, line);
    if step.kind == TokenType::Eof {
        seq![step]
    } else {
        seq![step] + token_stream(s, step.end, step.line_after)
    }
}

#[via_fn]
proof fn token_stream_decreases(s: Seq<char>, pos: int, line: int) {
    lemma_scan_progress(s, pos, line);
}

/// Repeated calls terminate: the stream is finite — never longer than one
/// more than the characters that remain — and exactly its last step is the
/// end-of-input token.
pub proof fn lemma_totality(s: Seq<char>, pos: int, line: int)
    requires
        0 <= pos <= s.len(),
    ensures
        1 <= token_stream(s, pos, line).len() <= s.len() - pos + 1,
        token_stream(s, pos, line)[token_stream(s, pos, line).len() - 1].kind == TokenType::Eof,
        forall|i: int|
            0 <= i < token_stream(s, pos, line).len() - 1 ==> #[trigger] token_stream(
                s,
                pos,
                line,
            )[i].kind != TokenType::Eof,
    decreases s.len() - pos,
{
    let step = next_step(s, pos, line);
    lemma_scan_progress(s, pos, line);
    if step.kind != TokenType::Eof {
        lemma_totality(s, step.end, step.line_after);
    }
}

/// The text carried by every ordinary token is exactly the span of source
/// it consumed (error tokens carry a diagnostic message instead, and the
/// end-of-input token is empty).
pub proof fn lemma_text_is_span(s: Seq<char>, pos: int, line: int)
    requires
        0 <= pos <= s.len(),
    ensures
        ({
            let loc = skip_ws(s, pos, line);
            let step = next_step(s, pos, line);
            step.kind != TokenType::Error ==> step.text == s.subrange(loc.pos, step.end)
        }),
{
    lemma_skip_bounds(s, pos, line, SkipMode::Code);
    let loc = skip_ws(s, pos, line);
    let step = next_step(s, pos, line);
    if loc.pos >= s.len() {
        assert(step.text =~= s.subrange(loc.pos, step.end));
    }
}

/// The text consumed by the whole scan, token spans and skipped regions
/// alike, laid end to end in order.
pub open spec fn covered_text(s: Seq<char>, pos: int, line: int) -> Seq<char>
    decreases s.len() - pos + 1,
        via covered_text_decreases
{
    let loc = skip_ws(s, pos, line);
    let step = scan_at(s, loc.pos, loc.line);
    if step.kind == TokenType::Eof {
        s.subrange(pos, loc.pos)
    } else {
        s.subrange(pos, loc.pos) + s.subrange(loc.pos, step.end) + covered_text(
            s,
            step.end,
            step.line_after,
        )
    }
}

#[via_fn]
proof fn covered_text_decreases(s: Seq<char>, pos: int, line: int) {
    lemma_scan_progress(s, pos, line);
}

/// Span coverage: concatenating, in order, each skipped whitespace or
/// comment region and each token's consumed span reconstructs the
/// remaining input exactly.
pub proof fn lemma_span_coverage(s: Seq<char>, pos: int, line: int)
    requires
        0 <= pos <= s.len(),
    ensures
        covered_text(s, pos, line) == s.subrange(pos, s.len() as int),
    decreases s.len() - pos,
{
    lemma_scan_progress(s, pos, line);
    lemma_skip_bounds(s, pos, line, SkipMode::Code);
    let loc = skip_ws(s, pos, line);
    let step = scan_at(s, loc.pos, loc.line);
    if step.kind == TokenType::Eof {
        assert(covered_text(s, pos, line) =~= s.subrange(pos, s.len() as int));
    } else {
        if loc.pos < s.len() {
            lemma_string_scan_bounds(s, loc.pos + 1, loc.line);
            lemma_number_bounds(s, loc.pos);
            lemma_ident_bounds(s, loc.pos + 1);
        }
        lemma_span_coverage(s, step.end, step.line_after);
        let skipped = s.subrange(pos, loc.pos);
        let span = s.subrange(loc.pos, step.end);
        let rest = covered_text(s, step.end, step.line_after);
        assert(skipped + span =~= s.subrange(pos, step.end));
        assert(s.subrange(pos, step.end) + s.subrange(step.end, s.len() as int) =~= s.subrange(
            pos,
            s.len() as int,
        ));
        assert(covered_text(s, pos, line) == (skipped + span) + rest);
    }
}

/// Line numbers are non-decreasing from one token of the stream to the
/// next, and never lie before the line the scan started on.
pub proof fn lemma_line_monotonic_stream(s: Seq<char>, pos: int, line: int)
    requires
        0 <= pos <= s.len(),
    ensures
        line <= token_stream(s, pos, line)[0].token_line,
        forall|i: int|
            0 <= i < token_stream(s, pos, line).len() - 1 ==> #[trigger] token_stream(
                s,
                pos,
                line,
            )[i].token_line <= token_stream(s, pos, line)[i + 1].token_line,
    decreases s.len() - pos,
{
    let step = next_step(s, pos, line);
    let stream = token_stream(s, pos, line);
    lemma_scan_progress(s, pos, line);
    lemma_line_monotonic(s, pos, line);
    if step.kind != TokenType::Eof {
        lemma_line_monotonic_stream(s, step.end, step.line_after);
        let rest = token_stream(s, step.end, step.line_after);
        assert forall|i: int| 0 <= i < stream.len() - 1 implies #[trigger] stream[i].token_line
            <= stream[i + 1].token_line by {
            if i == 0 {
                assert(stream[1] == rest[0]);
            } else {
                assert(stream[i] == rest[i - 1]);
                assert(stream[i + 1] == rest[i]);
            }
        }
    }
}

/// Maximal munch for the two-character operators: a `!` directly followed
/// by `=` scans as one not-equal token of two characters, and a `!` not so
/// followed scans as a bang token of one; `==`, `<=` and `>=` behave the
/// same way.
pub proof fn lemma_maximal_munch(s: Seq<char>, j: int, line: int)
    requires
        0 <= j < s.len(),
        s[j] == '!' || s[j] == '=' || s[j] == '<' || s[j] == '>',
    ensures
        j + 1 < s.len() && s[j + 1] == '=' ==> scan_at(s, j, line).end == j + 2
            && scan_at(s, j, line).kind == pair_kind(s[j], true),
        !(j + 1 < s.len() && s[j + 1] == '=') ==> scan_at(s, j, line).end == j + 1
            && scan_at(s, j, line).kind == pair_kind(s[j], false),
        s[j] == '!' && j + 1 < s.len() && s[j + 1] == '=' ==> scan_at(s, j, line).kind
            == TokenType::BangEqual,
        s[j] == '!' && !(j + 1 < s.len() && s[j + 1] == '=') ==> scan_at(s, j, line).kind
            == TokenType::Bang,
{
}

/// Keyword matching is exact and case-sensitive: a lexeme classifies as a
/// keyword exactly when it equals that keyword letter for letter, so any
/// proper prefix or extension of a keyword is a plain identifier. The
/// classification is also spelled out here per first character, which is
/// how the scanner dispatches.
pub proof fn lemma_keyword_exactness(lex: Seq<char>)
    requires
        lex.len() > 0,
    ensures
        keyword_type(lex) == TokenType::Identifier <==> (lex != "void"@ && lex != "int"@ && lex
            != "else"@ && lex != "for"@ && lex != "if"@ && lex != "return"@ && lex != "while"@),
        lex[0] != 'v' && lex[0] != 'i' && lex[0] != 'e' && lex[0] != 'f' && lex[0] != 'r' && lex[0]
            != 'w' ==> keyword_type(lex) == TokenType::Identifier,
        lex[0] == 'v' ==> keyword_type(lex) == (if lex =~= seq!['v', 'o', 'i', 'd'] {
            TokenType::Void
        } else {
            TokenType::Identifier
        }),
        lex[0] == 'e' ==> keyword_type(lex) == (if lex =~= seq!['e', 'l', 's', 'e'] {
            TokenType::Else
        } else {
            TokenType::Identifier
        }),
        lex[0] == 'f' ==> keyword_type(lex) == (if lex =~= seq!['f', 'o', 'r'] {
            TokenType::For
        } else {
            TokenType::Identifier
        }),
        lex[0] == 'r' ==> keyword_type(lex) == (if lex =~= seq!['r', 'e', 't', 'u', 'r', 'n'] {
            TokenType::Return
        } else {
            TokenType::Identifier
        }),
        lex[0] == 'w' ==> keyword_type(lex) == (if lex =~= seq!['w', 'h', 'i', 'l', 'e'] {
            TokenType::While
        } else {
            TokenType::Identifier
        }),
        lex[0] == 'i' ==> keyword_type(lex) == (if lex =~= seq!['i', 'n', 't'] {
            TokenType::Int
        } else if lex =~= seq!['i', 'f'] {
            TokenType::If
        } else {
            TokenType::Identifier
        }),
{
    reveal_strlit("void");
    reveal_strlit("int");
    reveal_strlit("else");
    reveal_strlit("for");
    reveal_strlit("if");
    reveal_strlit("return");
    reveal_strlit("while");
    assert("void"@ =~= seq!['v', 'o', 'i', 'd']);
    assert("int"@ =~= seq!['i', 'n', 't']);
    assert("else"@ =~= seq!['e', 'l', 's', 'e']);
    assert("for"@ =~= seq!['f', 'o', 'r']);
    assert("if"@ =~= seq!['i', 'f']);
    assert("return"@ =~= seq!['r', 'e', 't', 'u', 'r', 'n']);
    assert("while"@ =~= seq!['w', 'h', 'i', 'l', 'e']);
    assert(seq!['v', 'o', 'i', 'd'][0] == 'v');
    assert(seq!['i', 'n', 't'][0] == 'i');
    assert(seq!['e', 'l', 's', 'e'][0] == 'e');
    assert(seq!['f', 'o', 'r'][0] == 'f');
    assert(seq!['i', 'f'][0] == 'i');
    assert(seq!['r', 'e', 't', 'u', 'r', 'n'][0] == 'r');
    assert(seq!['w', 'h', 'i', 'l', 'e'][0] == 'w');
}

} // verus!

