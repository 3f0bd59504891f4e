//! What holds of every scan: the laws of the grammar, each proved from its
//! definition.

use vstd::prelude::*;
use vstd::utf8::{encode_utf8, is_ascii_chars_encode_utf8};
use crate::grammar::{
    continues, end_of_file, followed_by, fraction_len, is_alpha_numeric_or_underscore,
    is_alpha_or_underscore, is_blank, is_digit, lemma_newlines_split, lemma_run_all,
    lemma_step_advances, newlines, operator, plain, punctuation, run_len, scan, scan_from, step,
    step_reports, symbol, word_kind, Run, Step,
};
use crate::logger::{LexError, ReportView};
use crate::token::{keyword_kind, LiteralView, TokenType, TokenView};

verus! {

/// A run that is seen to stop at `end` has the length that this gives: if
/// every byte from `pos` up to `end` continues the run, and `end` is the end
/// of the source or holds a byte that does not, the run ends at `end`.
pub proof fn lemma_run_ends_at(src: Seq<u8>, pos: int, run: Run, end: int)
    requires
        0 <= pos <= end <= src.len(),
        forall|i: int| pos <= i < end ==> continues(run, #[trigger] symbol(src, i)),
        end < src.len() ==> !continues(run, symbol(src, end)),
    ensures
        pos + run_len(src, pos, run) == end,
    decreases end - pos,
{
    if pos < end {
        assert(continues(run, symbol(src, pos)));
        lemma_run_ends_at(src, pos + 1, run, end);
    }
}

/// A range without a newline counts none.
pub proof fn lemma_newlines_none(src: Seq<u8>, from: int, to: int)
    requires
        0 <= from <= to <= src.len(),
        forall|i: int| from <= i < to ==> #[trigger] symbol(src, i) != '\n',
    ensures
        newlines(src, from, to) == 0,
    decreases to - from,
{
    if from < to {
        assert(symbol(src, to - 1) != '\n');
        lemma_newlines_none(src, from, to - 1);
    }
}

/// A step yields a token, an error or nothing: never a token and an error.
pub proof fn lemma_token_or_error(src: Seq<u8>, pos: int, line: nat)
    requires
        0 <= pos < src.len(),
    ensures
        !(step(src, pos, line).token is Some && step(src, pos, line).error is Some),
{
}

/// A token's lexeme is the very bytes that its step consumed, so lexemes
/// are contiguous slices of the source that follow one another without
/// overlap; and the token stands on the line of its first byte.
pub proof fn lemma_lexeme_is_consumed(src: Seq<u8>, pos: int, line: nat)
    requires
        0 <= pos < src.len(),
        step(src, pos, line).token is Some,
    ensures
        step(src, pos, line).token->0.lexeme == src.subrange(pos, step(src, pos, line).next),
        step(src, pos, line).token->0.lexeme.len() > 0,
        step(src, pos, line).token->0.line == line,
{
    lemma_step_advances(src, pos, line);
}

/// The part of the source that a token stands for: from the offset of its
/// first byte up to the offset behind its last.
pub struct Span {
    pub start: int,
    pub end: int,
}

/// The spans of the tokens of `scan_from(src, pos, line)`, in order.
pub open spec fn spans_from(src: Seq<u8>, pos: int, line: nat) -> Seq<Span>
    decreases src.len() - pos,
    via spans_from_terminates
{
    if 0 <= pos < src.len() {
        let s = step(src, pos, line);
        let rest = spans_from(src, s.next, s.line);
        if s.token is Some {
            seq![Span { start: pos, end: s.next }] + rest
        } else {
            rest
        }
    } else {
        Seq::<Span>::empty()
    }
}

#[via_fn]
proof fn spans_from_terminates(src: Seq<u8>, pos: int, line: nat) {
    if 0 <= pos < src.len() {
        lemma_step_advances(src, pos, line);
    }
}

/// Every token's lexeme is a slice of the source; the slices are not empty,
/// follow one another from left to right, and do not overlap.
pub proof fn lemma_tokens_are_slices(src: Seq<u8>, pos: int, line: nat)
    requires
        0 <= pos <= src.len(),
    ensures
        ({
            let tokens = scan_from(src, pos, line).tokens;
            let spans = spans_from(src, pos, line);
            &&& spans.len() == tokens.len()
            &&& forall|i: int|
                0 <= i < spans.len() ==> pos <= (#[trigger] spans[i]).start < spans[i].end
                    <= src.len()
            &&& forall|i: int|
                0 <= i < spans.len() ==> (#[trigger] tokens[i]).lexeme == src.subrange(
                    spans[i].start,
                    spans[i].end,
                )
            &&& forall|i: int, j: int|
                0 <= i < j < spans.len() ==> (#[trigger] spans[i]).end <= (#[trigger] spans[j]).start
        }),
    decreases src.len() - pos,
{
    if pos < src.len() {
        let s = step(src, pos, line);
        lemma_step_advances(src, pos, line);
        lemma_tokens_are_slices(src, s.next, s.line);
        if s.token is Some {
            lemma_lexeme_is_consumed(src, pos, line);
        }
    }
}

/// Only a `Number` token carries a number, and only a `String` token a
/// string; every other token carries nothing.  No step yields `Eof`.
pub proof fn lemma_literal_by_kind(src: Seq<u8>, pos: int, line: nat)
    requires
        0 <= pos < src.len(),
        step(src, pos, line).token is Some,
    ensures
        ({
            let token = step(src, pos, line).token->0;
            &&& token.kind != TokenType::Eof
            &&& token.kind == TokenType::Number <==> token.literal is Number
            &&& token.kind == TokenType::String <==> token.literal is String
            &&& token.kind != TokenType::Number && token.kind != TokenType::String
                <==> token.literal is Nil
        }),
{
}

/// The number that a `Number` token carries is well formed: its digits are
/// below ten, and at least one stands before the point.
pub proof fn lemma_number_well_formed(src: Seq<u8>, pos: int, line: nat)
    requires
        0 <= pos < src.len(),
        is_digit(symbol(src, pos)),
    ensures
        step(src, pos, line).token is Some,
        step(src, pos, line).token->0.kind == TokenType::Number,
        step(src, pos, line).token->0.literal is Number,
        step(src, pos, line).token->0.literal->Number_0.wf(),
{
    lemma_run_all(src, pos + 1, Run::Digits);
    let dot = pos + 1 + run_len(src, pos + 1, Run::Digits);
    let fraction = fraction_len(src, dot);
    if fraction > 0 {
        lemma_run_all(src, dot + 1, Run::Digits);
    }
    let decimal = step(src, pos, line).token->0.literal->Number_0;
    assert forall|i: int| 0 <= i < decimal.digits.len() implies #[trigger] decimal.digits[i]
        <= 9 by {
        if i < dot - pos {
            assert(is_digit(symbol(src, pos + i)));
        } else {
            assert(is_digit(symbol(src, dot + 1 + (i - (dot - pos)))));
        }
    }
}

/// A step raises the line count by the number of newlines that it consumes.
pub proof fn lemma_step_counts_newlines(src: Seq<u8>, pos: int, line: nat)
    requires
        0 <= pos < src.len(),
    ensures
        step(src, pos, line).line == line + newlines(src, pos, step(src, pos, line).next),
{
    let c = symbol(src, pos);
    let next = step(src, pos, line).next;
    lemma_step_advances(src, pos, line);
    lemma_newlines_split(src, pos, pos + 1, next);
    assert(newlines(src, pos, pos + 1) == if c == '\n' {
        1nat
    } else {
        0nat
    }) by {
        assert(newlines(src, pos, pos) == 0);
    }
    if c == '/' && followed_by(src, pos, '/') {
        lemma_run_all(src, pos + 2, Run::Comment);
        lemma_newlines_none(src, pos + 1, next);
    } else if operator(c) is Some && followed_by(src, pos, '=') {
        lemma_newlines_none(src, pos + 1, next);
    } else if c == '"' {
        let close = pos + 1 + run_len(src, pos + 1, Run::Text);
        lemma_run_all(src, pos + 1, Run::Text);
        if close < src.len() {
            lemma_newlines_split(src, pos + 1, close, next);
            lemma_newlines_none(src, close, next);
        }
    } else if is_digit(c) {
        lemma_run_all(src, pos + 1, Run::Digits);
        let dot = pos + 1 + run_len(src, pos + 1, Run::Digits);
        if fraction_len(src, dot) > 0 {
            lemma_run_all(src, dot + 1, Run::Digits);
        }
        assert forall|i: int| pos + 1 <= i < next implies #[trigger] symbol(src, i) != '\n' by {
            if i < dot {
                assert(continues(Run::Digits, symbol(src, i)));
            } else if i > dot {
                assert(continues(Run::Digits, symbol(src, i)));
            }
        }
        lemma_newlines_none(src, pos + 1, next);
    } else if is_alpha_or_underscore(c) {
        lemma_run_all(src, pos + 1, Run::Word);
        assert forall|i: int| pos + 1 <= i < next implies #[trigger] symbol(src, i) != '\n' by {
            assert(continues(Run::Word, symbol(src, i)));
        }
        lemma_newlines_none(src, pos + 1, next);
    } else {
        lemma_newlines_none(src, pos + 1, next);
    }
}

/// A newline yields nothing and raises the line count by one.
pub proof fn lemma_newline(src: Seq<u8>, pos: int, line: nat)
    requires
        0 <= pos < src.len(),
        symbol(src, pos) == '\n',
    ensures
        step(src, pos, line) == (Step { next: pos + 1, line: line + 1, token: None, error: None }),
{
}

/// Space, carriage return and tab yield nothing and leave the line count.
pub proof fn lemma_blank(src: Seq<u8>, pos: int, line: nat)
    requires
        0 <= pos < src.len(),
        is_blank(symbol(src, pos)),
    ensures
        step(src, pos, line) == (Step { next: pos + 1, line, token: None, error: None }),
{
}

/// The line count at the end of a scan is the line count at its start and
/// the number of newlines in what was scanned.
pub proof fn lemma_scan_counts_newlines(src: Seq<u8>, pos: int, line: nat)
    requires
        0 <= pos <= src.len(),
    ensures
        scan_from(src, pos, line).line == line + newlines(src, pos, src.len() as int),
    decreases src.len() - pos,
{
    if pos < src.len() {
        let s = step(src, pos, line);
        lemma_step_advances(src, pos, line);
        lemma_step_counts_newlines(src, pos, line);
        lemma_scan_counts_newlines(src, s.next, s.line);
        lemma_newlines_split(src, pos, s.next, src.len() as int);
    }
}

/// Tokens and reports come in the order of their lines: none stands on a
/// line before the one that the scan starts on or after the one that it
/// ends on, and none stands on a line before that of an earlier one.
pub proof fn lemma_lines_in_order(src: Seq<u8>, pos: int, line: nat)
    requires
        0 <= pos <= src.len(),
    ensures
        ({
            let result = scan_from(src, pos, line);
            &&& line <= result.line
            &&& forall|i: int|
                0 <= i < result.tokens.len() ==> line <= (#[trigger] result.tokens[i]).line
                    <= result.line
            &&& forall|i: int, j: int|
                0 <= i <= j < result.tokens.len() ==> (#[trigger] result.tokens[i]).line <= (
                #[trigger] result.tokens[j]).line
            &&& forall|i: int|
                0 <= i < result.reports.len() ==> line <= (#[trigger] result.reports[i]).line
                    <= result.line
            &&& forall|i: int, j: int|
                0 <= i <= j < result.reports.len() ==> (#[trigger] result.reports[i]).line <= (
                #[trigger] result.reports[j]).line
        }),
    decreases src.len() - pos,
{
    if pos < src.len() {
        let s = step(src, pos, line);
        lemma_step_advances(src, pos, line);
        lemma_step_counts_newlines(src, pos, line);
        lemma_lines_in_order(src, s.next, s.line);
        if s.token is Some {
            lemma_lexeme_is_consumed(src, pos, line);
        }
    }
}

/// No token of the source itself is `Eof`.
pub proof fn lemma_no_eof_inside(src: Seq<u8>, pos: int, line: nat)
    requires
        0 <= pos <= src.len(),
    ensures
        forall|i: int|
            0 <= i < scan_from(src, pos, line).tokens.len() ==> (#[trigger] scan_from(
                src,
                pos,
                line,
            ).tokens[i]).kind != TokenType::Eof,
    decreases src.len() - pos,
{
    if pos < src.len() {
        let s = step(src, pos, line);
        lemma_step_advances(src, pos, line);
        lemma_no_eof_inside(src, s.next, s.line);
        if s.token is Some {
            lemma_literal_by_kind(src, pos, line);
        }
    }
}

/// Every scan ends with exactly one `Eof` token: the last token is `Eof`,
/// with an empty lexeme, on the line that the scan ended on, which is one
/// more than the number of newlines in the source; no other token is `Eof`.
pub proof fn lemma_scan_ends_with_eof(src: Seq<u8>)
    ensures
        scan(src).tokens.len() >= 1,
        scan(src).tokens.last() == end_of_file(scan(src).line),
        scan(src).tokens.last().kind == TokenType::Eof,
        scan(src).tokens.last().lexeme.len() == 0,
        scan(src).line == 1 + newlines(src, 0, src.len() as int),
        forall|i: int|
            0 <= i < scan(src).tokens.len() - 1 ==> (#[trigger] scan(src).tokens[i]).kind
                != TokenType::Eof,
{
    lemma_no_eof_inside(src, 0, 1);
    lemma_scan_counts_newlines(src, 0, 1);
}

/// A line comment yields nothing.  It runs as far as the line does: up to,
/// but not including, the next newline, or to the end of the source.
pub proof fn lemma_comment(src: Seq<u8>, pos: int, line: nat)
    requires
        0 <= pos < src.len(),
        symbol(src, pos) == '/',
        followed_by(src, pos, '/'),
    ensures
        step(src, pos, line).token is None,
        step(src, pos, line).error is None,
        step(src, pos, line).line == line,
        pos + 2 <= step(src, pos, line).next <= src.len(),
        forall|i: int| pos <= i < step(src, pos, line).next ==> #[trigger] symbol(src, i) != '\n',
        step(src, pos, line).next < src.len() ==> symbol(src, step(src, pos, line).next) == '\n',
{
    lemma_run_all(src, pos + 2, Run::Comment);
    assert forall|i: int| pos <= i < step(src, pos, line).next implies #[trigger] symbol(src, i)
        != '\n' by {
        if i >= pos + 2 {
            assert(continues(Run::Comment, symbol(src, i)));
        }
    }
}

/// A slash that starts no comment is the `Slash` token.
pub proof fn lemma_slash(src: Seq<u8>, pos: int, line: nat)
    requires
        0 <= pos < src.len(),
        symbol(src, pos) == '/',
        !followed_by(src, pos, '/'),
    ensures
        step(src, pos, line) == plain(src, pos, 1, TokenType::Slash, line),
{
}

/// A punctuation mark is one token of one byte.
pub proof fn lemma_punctuation(src: Seq<u8>, pos: int, line: nat)
    requires
        0 <= pos < src.len(),
        punctuation(symbol(src, pos)) is Some,
    ensures
        step(src, pos, line) == plain(src, pos, 1, punctuation(symbol(src, pos))->0, line),
{
}

/// `!`, `=`, `<` and `>` take a following `=` with them: together they are
/// one token of two bytes, never two tokens.  Where no `=` follows, the
/// character is a token by itself.
pub proof fn lemma_operator(src: Seq<u8>, pos: int, line: nat, alone: TokenType, with_equal: TokenType)
    requires
        0 <= pos < src.len(),
        operator(symbol(src, pos)) == Some((alone, with_equal)),
    ensures
        followed_by(src, pos, '=') ==> step(src, pos, line) == plain(src, pos, 2, with_equal, line),
        !followed_by(src, pos, '=') ==> step(src, pos, line) == plain(src, pos, 1, alone, line),
{
}

/// A string that is closed at `close` is one `String` token.  Its lexeme
/// runs from the opening quote to the closing quote, both included; its
/// literal is the text strictly between them.  The newlines inside count.
pub proof fn lemma_string(src: Seq<u8>, pos: int, line: nat, close: int)
    requires
        0 <= pos < close < src.len(),
        symbol(src, pos) == '"',
        symbol(src, close) == '"',
        forall|i: int| pos < i < close ==> #[trigger] symbol(src, i) != '"',
    ensures
        step(src, pos, line) == (Step {
            next: close + 1,
            line: line + newlines(src, pos + 1, close),
            token: Some(
                TokenView {
                    kind: TokenType::String,
                    lexeme: src.subrange(pos, close + 1),
                    literal: LiteralView::String(src.subrange(pos + 1, close)),
                    line,
                },
            ),
            error: None,
        }),
{
    lemma_run_ends_at(src, pos + 1, Run::Text, close);
}

/// A string that is not closed is one error and no token: the scan reaches
/// the end of the source, and the error stands on the last line.
pub proof fn lemma_unterminated_string(src: Seq<u8>, pos: int, line: nat)
    requires
        0 <= pos < src.len(),
        symbol(src, pos) == '"',
        forall|i: int| pos < i < src.len() ==> #[trigger] symbol(src, i) != '"',
    ensures
        step(src, pos, line) == (Step {
            next: src.len() as int,
            line: line + newlines(src, pos + 1, src.len() as int),
            token: None,
            error: Some(LexError::UnterminatedString),
        }),
        scan_from(src, pos, line).tokens == Seq::<TokenView>::empty(),
        scan_from(src, pos, line).reports.len() == 1,
{
    lemma_run_ends_at(src, pos + 1, Run::Text, src.len() as int);
    let s = step(src, pos, line);
    assert(scan_from(src, s.next, s.line).tokens == Seq::<TokenView>::empty());
    assert(scan_from(src, pos, line).tokens =~= Seq::<TokenView>::empty());
    assert(scan_from(src, pos, line).reports =~= step_reports(s));
}

/// A character that starts no lexeme is one error and no token, and the
/// scan goes on behind it.
pub proof fn lemma_unknown_character(src: Seq<u8>, pos: int, line: nat)
    requires
        0 <= pos < src.len(),
        ({
            let c = symbol(src, pos);
            &&& punctuation(c) is None
            &&& operator(c) is None
            &&& c != '/'
            &&& !is_blank(c)
            &&& c != '\n'
            &&& c != '"'
            &&& !is_digit(c)
            &&& !is_alpha_or_underscore(c)
        }),
    ensures
        step(src, pos, line) == (Step {
            next: pos + 1,
            line,
            token: None,
            error: Some(LexError::UnknownCharacter(symbol(src, pos))),
        }),
        scan_from(src, pos, line).tokens == scan_from(src, pos + 1, line).tokens,
        scan_from(src, pos, line).reports.len() == 1 + scan_from(src, pos + 1, line).reports.len(),
{
    let s = step(src, pos, line);
    assert(scan_from(src, pos, line).tokens =~= scan_from(src, pos + 1, line).tokens);
}

/// A word is as long as letters, digits and underscores go, and it is one
/// token: of the kind that it names if it is a reserved word, else an
/// `Identifier`.
pub proof fn lemma_word(src: Seq<u8>, pos: int, line: nat, end: int)
    requires
        0 <= pos < end <= src.len(),
        is_alpha_or_underscore(symbol(src, pos)),
        forall|i: int| pos < i < end ==> is_alpha_numeric_or_underscore(#[trigger] symbol(src, i)),
        end < src.len() ==> !is_alpha_numeric_or_underscore(symbol(src, end)),
    ensures
        step(src, pos, line) == plain(
            src,
            pos,
            (end - pos) as nat,
            word_kind(src.subrange(pos, end)),
            line,
        ),
{
    lemma_run_ends_at(src, pos + 1, Run::Word, end);
}

/// A source that is one word scans to that word's token and `Eof`, both on
/// line 1, without an error.
pub proof fn lemma_word_alone(src: Seq<u8>)
    requires
        src.len() > 0,
        is_alpha_or_underscore(symbol(src, 0)),
        forall|i: int| 0 < i < src.len() ==> is_alpha_numeric_or_underscore(#[trigger] symbol(src, i)),
    ensures
        scan(src).tokens == seq![
            TokenView { kind: word_kind(src), lexeme: src, literal: LiteralView::Nil, line: 1 },
            end_of_file(1),
        ],
        scan(src).reports == Seq::<ReportView>::empty(),
{
    let end = src.len() as int;
    lemma_word(src, 0, 1, end);
    assert(src.subrange(0, end) =~= src);
    let s = step(src, 0, 1);
    assert(scan_from(src, end, 1).tokens == Seq::<TokenView>::empty());
    assert(scan_from(src, 0, 1).tokens =~= seq![s.token->0]);
    assert(scan_from(src, 0, 1).reports =~= Seq::<ReportView>::empty());
    assert(scan(src).tokens =~= seq![s.token->0, end_of_file(1)]);
}

/// The bytes of a text of ASCII characters are its characters.
proof fn lemma_ascii_bytes(text: Seq<char>)
    requires
        forall|i: int| 0 <= i < text.len() ==> '\0' <= #[trigger] text[i] <= '\u{7f}',
    ensures
        encode_utf8(text).len() == text.len(),
        forall|i: int| 0 <= i < text.len() ==> #[trigger] encode_utf8(text)[i] == text[i] as u8,
{
    is_ascii_chars_encode_utf8(text);
}

/// The sixteen reserved words and the kinds that they name.
pub proof fn lemma_reserved_words()
    ensures
        keyword_kind(encode_utf8("and"@)) == Some(TokenType::And),
        keyword_kind(encode_utf8("class"@)) == Some(TokenType::Class),
        keyword_kind(encode_utf8("else"@)) == Some(TokenType::Else),
        keyword_kind(encode_utf8("false"@)) == Some(TokenType::False),
        keyword_kind(encode_utf8("for"@)) == Some(TokenType::For),
        keyword_kind(encode_utf8("fun"@)) == Some(TokenType::Fun),
        keyword_kind(encode_utf8("if"@)) == Some(TokenType::If),
        keyword_kind(encode_utf8("nil"@)) == Some(TokenType::Nil),
        keyword_kind(encode_utf8("or"@)) == Some(TokenType::Or),
        keyword_kind(encode_utf8("print"@)) == Some(TokenType::Print),
        keyword_kind(encode_utf8("return"@)) == Some(TokenType::Return),
        keyword_kind(encode_utf8("super"@)) == Some(TokenType::Super),
        keyword_kind(encode_utf8("this"@)) == Some(TokenType::This),
        keyword_kind(encode_utf8("true"@)) == Some(TokenType::True),
        keyword_kind(encode_utf8("var"@)) == Some(TokenType::Var),
        keyword_kind(encode_utf8("while"@)) == Some(TokenType::While),
{
    reveal_strlit("and");
    reveal_strlit("class");
    reveal_strlit("else");
    reveal_strlit("false");
    reveal_strlit("for");
    reveal_strlit("fun");
    reveal_strlit("if");
    reveal_strlit("nil");
    reveal_strlit("or");
    reveal_strlit("print");
    reveal_strlit("return");
    reveal_strlit("super");
    reveal_strlit("this");
    reveal_strlit("true");
    reveal_strlit("var");
    reveal_strlit("while");
    lemma_ascii_bytes("and"@);
    lemma_ascii_bytes("class"@);
    lemma_ascii_bytes("else"@);
    lemma_ascii_bytes("false"@);
    lemma_ascii_bytes("for"@);
    lemma_ascii_bytes("fun"@);
    lemma_ascii_bytes("if"@);
    lemma_ascii_bytes("nil"@);
    lemma_ascii_bytes("or"@);
    lemma_ascii_bytes("print"@);
    lemma_ascii_bytes("return"@);
    lemma_ascii_bytes("super"@);
    lemma_ascii_bytes("this"@);
    lemma_ascii_bytes("true"@);
    lemma_ascii_bytes("var"@);
    lemma_ascii_bytes("while"@);
    assert(encode_utf8("for"@)[1] != encode_utf8("fun"@)[1]);
    assert(encode_utf8("for"@)[0] != encode_utf8("and"@)[0]);
    assert(encode_utf8("fun"@)[0] != encode_utf8("and"@)[0]);
    assert(encode_utf8("nil"@)[0] != encode_utf8("and"@)[0]);
    assert(encode_utf8("nil"@)[0] != encode_utf8("for"@)[0]);
    assert(encode_utf8("nil"@)[0] != encode_utf8("fun"@)[0]);
    assert(encode_utf8("var"@)[0] != encode_utf8("and"@)[0]);
    assert(encode_utf8("var"@)[0] != encode_utf8("for"@)[0]);
    assert(encode_utf8("var"@)[0] != encode_utf8("fun"@)[0]);
    assert(encode_utf8("var"@)[0] != encode_utf8("nil"@)[0]);
    assert(encode_utf8("or"@)[0] != encode_utf8("if"@)[0]);
    assert(encode_utf8("this"@)[0] != encode_utf8("else"@)[0]);
    assert(encode_utf8("true"@)[0] != encode_utf8("else"@)[0]);
    assert(encode_utf8("true"@)[1] != encode_utf8("this"@)[1]);
    assert(encode_utf8("false"@)[0] != encode_utf8("class"@)[0]);
    assert(encode_utf8("print"@)[0] != encode_utf8("class"@)[0]);
    assert(encode_utf8("print"@)[0] != encode_utf8("false"@)[0]);
    assert(encode_utf8("super"@)[0] != encode_utf8("class"@)[0]);
    assert(encode_utf8("super"@)[0] != encode_utf8("false"@)[0]);
    assert(encode_utf8("super"@)[0] != encode_utf8("print"@)[0]);
    assert(encode_utf8("while"@)[0] != encode_utf8("class"@)[0]);
    assert(encode_utf8("while"@)[0] != encode_utf8("false"@)[0]);
    assert(encode_utf8("while"@)[0] != encode_utf8("print"@)[0]);
    assert(encode_utf8("while"@)[0] != encode_utf8("super"@)[0]);
}

} // verus!
