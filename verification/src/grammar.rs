//! The lexical grammar, as mathematics: what scanning a sequence of bytes
//! yields.  Nothing here runs; the scanner is proved against it.

use vstd::prelude::*;
use crate::logger::{LexError, ReportView};
use crate::token::{keyword_kind, DecimalView, LiteralView, TokenType, TokenView};

verus! {

/// The byte at `pos`, read as a character.
pub open spec fn symbol(src: Seq<u8>, pos: int) -> char {
    src[pos] as char
}

pub open spec fn is_digit(c: char) -> bool {
    '0' <= c && c <= '9'
}

pub open spec fn is_alpha_or_underscore(c: char) -> bool {
    ('a' <= c && c <= 'z') || ('A' <= c && c <= 'Z') || c == '_'
}

pub open spec fn is_alpha_numeric_or_underscore(c: char) -> bool {
    is_alpha_or_underscore(c) || is_digit(c)
}

/// Space, carriage return and tab: skipped, and no line ends.
pub open spec fn is_blank(c: char) -> bool {
    c == ' ' || c == '\r' || c == '\t'
}

/// The kind of a punctuation mark that is a token by itself.
pub open spec fn punctuation(c: char) -> Option<TokenType> {
    if c == '(' {
        Some(TokenType::LeftParen)
    } else if c == ')' {
        Some(TokenType::RightParen)
    } else if c == '{' {
        Some(TokenType::LeftBrace)
    } else if c == '}' {
        Some(TokenType::RightBrace)
    } else if c == ',' {
        Some(TokenType::Comma)
    } else if c == '.' {
        Some(TokenType::Dot)
    } else if c == '-' {
        Some(TokenType::Minus)
    } else if c == '+' {
        Some(TokenType::Plus)
    } else if c == ';' {
        Some(TokenType::Semicolon)
    } else if c == '*' {
        Some(TokenType::Star)
    } else {
        None
    }
}

/// For a character that starts an operator: the operator's kind when the
/// character stands alone, and its kind when `=` follows.
pub open spec fn operator(c: char) -> Option<(TokenType, TokenType)> {
    if c == '!' {
        Some((TokenType::Bang, TokenType::BangEqual))
    } else if c == '=' {
        Some((TokenType::Equal, TokenType::EqualEqual))
    } else if c == '<' {
        Some((TokenType::Less, TokenType::LessEqual))
    } else if c == '>' {
        Some((TokenType::Greater, TokenType::GreaterEqual))
    } else {
        None
    }
}

/// The kinds of run that the scanner consumes as far as they go.
pub enum Run {
    /// The rest of a line: everything but a newline.
    Comment,
    /// The inside of a string: everything but a double quote.
    Text,
    /// Decimal digits.
    Digits,
    /// Letters, digits and underscores.
    Word,
}

/// Whether `c` continues a run of the given kind.
pub open spec fn continues(run: Run, c: char) -> bool {
    match run {
        Run::Comment => c != '\n',
        Run::Text => c != '"',
        Run::Digits => is_digit(c),
        Run::Word => is_alpha_numeric_or_underscore(c),
    }
}

/// The length of the longest run of the given kind that starts at `pos`.
pub open spec fn run_len(src: Seq<u8>, pos: int, run: Run) -> nat
    decreases src.len() - pos,
{
    if 0 <= pos < src.len() && continues(run, symbol(src, pos)) {
        1 + run_len(src, pos + 1, run)
    } else {
        0
    }
}

/// The number of newlines among the bytes from `from` up to `to`.
pub open spec fn newlines(src: Seq<u8>, from: int, to: int) -> nat
    decreases to - from,
{
    if 0 <= from < to <= src.len() {
        newlines(src, from, to - 1) + if symbol(src, to - 1) == '\n' {
            1nat
        } else {
            0nat
        }
    } else {
        0
    }
}

/// Whether the byte after `pos` exists and is `c`.
pub open spec fn followed_by(src: Seq<u8>, pos: int, c: char) -> bool {
    pos + 1 < src.len() && symbol(src, pos + 1) == c
}

/// The value of a decimal digit.
pub open spec fn digit_value(b: u8) -> u8 {
    if b >= 0x30 {
        (b - 0x30) as u8
    } else {
        0
    }
}

/// The values of a run of decimal digits.
pub open spec fn digit_values(text: Seq<u8>) -> Seq<u8> {
    Seq::new(text.len(), |i: int| digit_value(text[i]))
}

/// What one step of scanning does: where it stops, the line count after it,
/// and the token or the error that it yields.
pub struct Step {
    /// The position after the step.
    pub next: int,
    /// The line count after the step.
    pub line: nat,
    pub token: Option<TokenView>,
    pub error: Option<LexError>,
}

/// A step that consumes `len` bytes as one token without a literal.
pub open spec fn plain(src: Seq<u8>, pos: int, len: nat, kind: TokenType, line: nat) -> Step {
    Step {
        next: pos + len,
        line,
        token: Some(
            TokenView { kind, lexeme: src.subrange(pos, pos + len), literal: LiteralView::Nil, line },
        ),
        error: None,
    }
}

/// A step that consumes `len` bytes and yields nothing.
pub open spec fn skip(pos: int, len: nat, line: nat) -> Step {
    Step { next: pos + len, line, token: None, error: None }
}

/// The step at an opening double quote.  The string runs to the next double
/// quote; its newlines count.  The token stands on the line of the opening
/// quote, and an unterminated string is reported on the last line.
pub open spec fn string_step(src: Seq<u8>, pos: int, line: nat) -> Step {
    let body = run_len(src, pos + 1, Run::Text);
    let close = pos + 1 + body;
    let last_line = line + newlines(src, pos + 1, close);
    if close < src.len() {
        Step {
            next: pos + 1 + body + 1,
            line: last_line,
            token: Some(
                TokenView {
                    kind: TokenType::String,
                    lexeme: src.subrange(pos, close + 1),
                    literal: LiteralView::String(src.subrange(pos + 1, close)),
                    line,
                },
            ),
            error: None,
        }
    } else {
        Step {
            next: pos + 1 + body,
            line: last_line,
            token: None,
            error: Some(LexError::UnterminatedString),
        }
    }
}

/// The length of the fraction that follows the integer part ending before
/// `dot`, the point included; 0 where no point stands there or no digit
/// follows it.
pub open spec fn fraction_len(src: Seq<u8>, dot: int) -> nat {
    if 0 <= dot < src.len() && symbol(src, dot) == '.' && dot + 1 < src.len() && is_digit(
        symbol(src, dot + 1),
    ) {
        1 + run_len(src, dot + 1, Run::Digits)
    } else {
        0
    }
}

/// The step at a decimal digit.
pub open spec fn number_step(src: Seq<u8>, pos: int, line: nat) -> Step {
    let whole = 1 + run_len(src, pos + 1, Run::Digits);
    let dot = pos + whole;
    let fraction = fraction_len(src, dot);
    let scale = if fraction == 0 {
        0nat
    } else {
        (fraction - 1) as nat
    };
    Step {
        next: pos + whole + fraction,
        line,
        token: Some(
            TokenView {
                kind: TokenType::Number,
                lexeme: src.subrange(pos, dot + fraction),
                literal: LiteralView::Number(
                    DecimalView {
                        digits: digit_values(src.subrange(pos, dot)) + digit_values(
                            src.subrange(dot + fraction - scale, dot + fraction),
                        ),
                        scale,
                    },
                ),
                line,
            },
        ),
        error: None,
    }
}

/// The kind of a word: that of the reserved word it spells, else `Identifier`.
pub open spec fn word_kind(text: Seq<u8>) -> TokenType {
    match keyword_kind(text) {
        Some(kind) => kind,
        None => TokenType::Identifier,
    }
}

/// The step at a letter or an underscore.
pub open spec fn word_step(src: Seq<u8>, pos: int, line: nat) -> Step {
    let len = 1 + run_len(src, pos + 1, Run::Word);
    plain(src, pos, len, word_kind(src.subrange(pos, pos + len)), line)
}

/// The step that starts at `pos`, a position inside `src`, on line `line`.
pub open spec fn step(src: Seq<u8>, pos: int, line: nat) -> Step
    recommends
        0 <= pos < src.len(),
{
    let c = symbol(src, pos);
    if let Some(kind) = punctuation(c) {
        plain(src, pos, 1, kind, line)
    } else if c == '/' {
        if followed_by(src, pos, '/') {
            skip(pos, 2 + run_len(src, pos + 2, Run::Comment), line)
        } else {
            plain(src, pos, 1, TokenType::Slash, line)
        }
    } else if let Some((alone, with_equal)) = operator(c) {
        if followed_by(src, pos, '=') {
            plain(src, pos, 2, with_equal, line)
        } else {
            plain(src, pos, 1, alone, line)
        }
    } else if is_blank(c) {
        skip(pos, 1, line)
    } else if c == '\n' {
        skip(pos, 1, line + 1)
    } else if c == '"' {
        string_step(src, pos, line)
    } else if is_digit(c) {
        number_step(src, pos, line)
    } else if is_alpha_or_underscore(c) {
        word_step(src, pos, line)
    } else {
        Step { next: pos + 1, line, token: None, error: Some(LexError::UnknownCharacter(c)) }
    }
}

/// Every byte of a run continues it, and the byte behind the run, if there
/// is one, does not: the run is the longest there is.
pub proof fn lemma_run_all(src: Seq<u8>, pos: int, run: Run)
    requires
        0 <= pos <= src.len(),
    ensures
        pos + run_len(src, pos, run) <= src.len(),
        forall|i: int|
            pos <= i < pos + run_len(src, pos, run) ==> continues(run, #[trigger] symbol(src, i)),
        pos + run_len(src, pos, run) < src.len() ==> !continues(
            run,
            symbol(src, pos + run_len(src, pos, run)),
        ),
    decreases src.len() - pos,
{
    if pos < src.len() && continues(run, symbol(src, pos)) {
        lemma_run_all(src, pos + 1, run);
    }
}

/// Newlines add up over adjoining ranges.
pub proof fn lemma_newlines_split(src: Seq<u8>, from: int, mid: int, to: int)
    requires
        0 <= from <= mid <= to <= src.len(),
    ensures
        newlines(src, from, to) == newlines(src, from, mid) + newlines(src, mid, to),
    decreases to - mid,
{
    if mid < to {
        lemma_newlines_split(src, from, mid, to - 1);
    }
}

/// Every step consumes at least one byte and stays inside the source.
pub proof fn lemma_step_advances(src: Seq<u8>, pos: int, line: nat)
    requires
        0 <= pos < src.len(),
    ensures
        pos < step(src, pos, line).next <= src.len(),
{
    let c = symbol(src, pos);
    if c == '/' && followed_by(src, pos, '/') {
        lemma_run_all(src, pos + 2, Run::Comment);
    } else if c == '"' {
        lemma_run_all(src, pos + 1, Run::Text);
    } else if is_digit(c) {
        lemma_run_all(src, pos + 1, Run::Digits);
        let dot = pos + 1 + run_len(src, pos + 1, Run::Digits);
        if fraction_len(src, dot) > 0 {
            lemma_run_all(src, dot + 1, Run::Digits);
        }
    } else if is_alpha_or_underscore(c) {
        lemma_run_all(src, pos + 1, Run::Word);
    }
}

/// The report that a step's error becomes: it stands on the line that the
/// step ends on, with no location.
pub open spec fn report_of(error: LexError, line: nat) -> ReportView {
    ReportView { line, location: Seq::<char>::empty(), message: error.message_text() }
}

/// The tokens that a step yields: one or none.
pub open spec fn step_tokens(s: Step) -> Seq<TokenView> {
    match s.token {
        Some(token) => seq![token],
        None => Seq::<TokenView>::empty(),
    }
}

/// The reports that a step yields: one or none.
pub open spec fn step_reports(s: Step) -> Seq<ReportView> {
    match s.error {
        Some(error) => seq![report_of(error, s.line)],
        None => Seq::<ReportView>::empty(),
    }
}

/// The outcome of scanning: the tokens, the reports, and the line count
/// reached.
pub struct Scan {
    pub tokens: Seq<TokenView>,
    pub reports: Seq<ReportView>,
    pub line: nat,
}

/// Scanning `src` from `pos` to its end, starting on line `line`: one step
/// after another.
pub open spec fn scan_from(src: Seq<u8>, pos: int, line: nat) -> Scan
    decreases src.len() - pos,
    via scan_from_terminates
{
    if 0 <= pos < src.len() {
        let s = step(src, pos, line);
        let rest = scan_from(src, s.next, s.line);
        Scan {
            tokens: step_tokens(s) + rest.tokens,
            reports: step_reports(s) + rest.reports,
            line: rest.line,
        }
    } else {
        Scan { tokens: Seq::<TokenView>::empty(), reports: Seq::<ReportView>::empty(), line }
    }
}

#[via_fn]
proof fn scan_from_terminates(src: Seq<u8>, pos: int, line: nat) {
    if 0 <= pos < src.len() {
        lemma_step_advances(src, pos, line);
    }
}

/// The token that ends every scan.
pub open spec fn end_of_file(line: nat) -> TokenView {
    TokenView {
        kind: TokenType::Eof,
        lexeme: Seq::<u8>::empty(),
        literal: LiteralView::Nil,
        line,
    }
}

/// Scanning all of `src`: the tokens of its lexemes in source order, then the
/// end-of-file token on the last line; and the errors in the order found.
pub open spec fn scan(src: Seq<u8>) -> Scan {
    let body = scan_from(src, 0, 1);
    Scan {
        tokens: body.tokens.push(end_of_file(body.line)),
        reports: body.reports,
        line: body.line,
    }
}

} // verus!
