//! The scanner: one pass over a source text, from bytes to tokens.

use vstd::prelude::*;
use vstd::string::*;
use vstd::utf8::{encode_utf8, encode_utf8_valid_utf8};
use crate::grammar::{
    digit_values, end_of_file, followed_by, fraction_len, lemma_run_all, newlines, number_step,
    run_len, scan, scan_from, step, step_reports, step_tokens, string_step, symbol, word_step, Run,
};
use crate::logger::{report_views, LexError, LoxLogger, Report, ReportView};
use crate::text::{is_ascii_byte, lemma_boundaries_at_ascii, substring};
use crate::token::{keyword, token_views, Decimal, Literal, Token, TokenType, TokenView};

verus! {

/// The byte at `pos`, read as a character; NUL where `pos` is outside `src`.
pub open spec fn peek_at(src: Seq<u8>, pos: int) -> char {
    if 0 <= pos < src.len() {
        symbol(src, pos)
    } else {
        '\0'
    }
}

/// A scanner over one source text.  It is used once: `scan_tokens` drains the
/// source, and the cursors are never reset.
pub struct Scanner {
    source: String,
    tokens: Vec<Token>,
    start: usize,
    current: usize,
    line: usize,
    logger: LoxLogger,
}

impl Scanner {
    /// The UTF-8 bytes of the source text.
    pub closed spec fn bytes(&self) -> Seq<u8> {
        encode_utf8(self.source@)
    }

    /// The tokens produced so far.
    pub closed spec fn scanned(&self) -> Seq<TokenView> {
        token_views(self.tokens@)
    }

    /// The errors reported so far.
    pub closed spec fn reported(&self) -> Seq<ReportView> {
        self.logger@
    }

    /// The byte offset of the next byte to read.
    pub closed spec fn position(&self) -> int {
        self.current as int
    }

    /// The 1-based number of the line that the next byte stands on.
    pub closed spec fn line_count(&self) -> nat {
        self.line as nat
    }

    /// The cursors are in order and inside the source, and the line count
    /// can still grow by one for every byte not yet read.
    pub closed spec fn wf(&self) -> bool {
        &&& self.start <= self.current <= self.bytes().len() <= usize::MAX
        &&& self.line + (self.bytes().len() - self.current) <= usize::MAX
    }

    /// Whether nothing has been scanned yet.
    pub open spec fn is_fresh(&self) -> bool {
        &&& self.position() == 0
        &&& self.line_count() == 1
        &&& self.scanned() == Seq::<TokenView>::empty()
        &&& self.reported() == Seq::<ReportView>::empty()
    }

    /// A scanner at the start of `source`, on line 1.
    pub fn new(source: String) -> (scanner: Scanner)
        requires
            encode_utf8(source@).len() < usize::MAX,
        ensures
            scanner.wf(),
            scanner.is_fresh(),
            scanner.bytes() == encode_utf8(source@),
    {
        let tokens: Vec<Token> = Vec::with_capacity(1024);
        let scanner = Scanner {
            source,
            tokens,
            start: 0,
            current: 0,
            line: 1,
            logger: LoxLogger::new(),
        };
        assert(scanner.scanned() =~= Seq::<TokenView>::empty());
        scanner
    }

    /// The tokens produced so far.
    pub fn tokens(&self) -> (tokens: &Vec<Token>)
        ensures
            token_views(tokens@) == self.scanned(),
    {
        &self.tokens
    }

    /// The errors reported so far.
    pub fn reports(&self) -> (reports: &Vec<Report>)
        ensures
            report_views(reports@) == self.reported(),
    {
        &self.logger.reports
    }

    /// Gives up the scanner for its tokens and its reports.
    pub fn finish(self) -> (parts: (Vec<Token>, Vec<Report>))
        ensures
            token_views(parts.0@) == self.scanned(),
            report_views(parts.1@) == self.reported(),
    {
        (self.tokens, self.logger.reports)
    }

    /// Whether any error has been reported so far.
    pub fn had_error(&self) -> (had: bool)
        ensures
            had == (self.reported().len() > 0),
    {
        self.logger.had_error()
    }

    /// Whether every byte of the source has been read.
    pub fn is_at_end(&self) -> (at_end: bool)
        ensures
            at_end == (self.position() >= self.bytes().len()),
    {
        self.current >= self.source.as_str().as_bytes().len()
    }

    /// Scans the rest of the source and appends the end-of-file token.
    ///
    /// The new tokens and reports are those that the grammar gives for the
    /// bytes from the current position on; on a fresh scanner, those of the
    /// whole source.
    pub fn scan_tokens(&mut self)
        requires
            old(self).wf(),
        ensures
            final(self).wf(),
            final(self).bytes() == old(self).bytes(),
            final(self).position() == final(self).bytes().len(),
            ({
                let rest = scan_from(
                    old(self).bytes(),
                    old(self).position(),
                    old(self).line_count(),
                );
                &&& final(self).scanned() == old(self).scanned() + rest.tokens.push(
                    end_of_file(rest.line),
                )
                &&& final(self).reported() == old(self).reported() + rest.reports
                &&& final(self).line_count() == rest.line
            }),
            old(self).is_fresh() ==> final(self).scanned() == scan(final(self).bytes()).tokens
                && final(self).reported() == scan(final(self).bytes()).reports,
    {
        let ghost src = self.bytes();
        let ghost goal = scan_from(src, self.position(), self.line_count());
        let ghost tokens0 = self.scanned();
        let ghost reports0 = self.reported();
        while !self.is_at_end()
            invariant
                self.wf(),
                self.bytes() == src,
                self.scanned() + scan_from(src, self.position(), self.line_count()).tokens
                    =~= tokens0 + goal.tokens,
                self.reported() + scan_from(src, self.position(), self.line_count()).reports
                    =~= reports0 + goal.reports,
                scan_from(src, self.position(), self.line_count()).line == goal.line,
            decreases src.len() - self.position(),
        {
            // We are at the beginning of the next lexeme.
            self.start = self.current;
            let ghost s = step(src, self.position(), self.line_count());
            let ghost before = self.scanned();
            let ghost before_reports = self.reported();
            self.scan_token();
            proof {
                let rest = scan_from(src, s.next, s.line);
                assert(self.scanned() + rest.tokens =~= before + (step_tokens(s) + rest.tokens));
                assert(self.reported() + rest.reports =~= before_reports + (step_reports(s)
                    + rest.reports));
            }
        }
        // Insert token for end of file.
        let ghost before = self.scanned();
        self.tokens.push(Token::new(TokenType::Eof, String::new(), Literal::Nil, self.line));
        proof {
            assert(encode_utf8(Seq::<char>::empty()) =~= Seq::<u8>::empty());
            assert(self.scanned() =~= before.push(end_of_file(self.line as nat)));
            assert(self.scanned() =~= tokens0 + goal.tokens.push(end_of_file(goal.line)));
            if old(self).is_fresh() {
                assert(self.scanned() =~= scan(src).tokens);
                assert(self.reported() =~= scan(src).reports);
            }
        }
    }

    /// Scans one lexeme, or skips what is none: one step of the grammar.
    fn scan_token(&mut self)
        requires
            old(self).wf(),
            old(self).start == old(self).current,
            old(self).position() < old(self).bytes().len(),
        ensures
            final(self).wf(),
            final(self).bytes() == old(self).bytes(),
            ({
                let s = step(old(self).bytes(), old(self).position(), old(self).line_count());
                &&& final(self).position() == s.next
                &&& final(self).line_count() == s.line
                &&& final(self).scanned() == old(self).scanned() + step_tokens(s)
                &&& final(self).reported() == old(self).reported() + step_reports(s)
            }),
    {
        let ghost src = self.bytes();
        let ghost pos = self.position();
        proof {
            assert(old(self).scanned() + Seq::<TokenView>::empty() =~= old(self).scanned());
            assert(old(self).reported() + Seq::<ReportView>::empty() =~= old(self).reported());
        }
        let c: char = self.advance();
        match c {
            '(' => self.add_token(TokenType::LeftParen),
            ')' => self.add_token(TokenType::RightParen),
            '{' => self.add_token(TokenType::LeftBrace),
            '}' => self.add_token(TokenType::RightBrace),
            ',' => self.add_token(TokenType::Comma),
            '.' => self.add_token(TokenType::Dot),
            '-' => self.add_token(TokenType::Minus),
            '+' => self.add_token(TokenType::Plus),
            ';' => self.add_token(TokenType::Semicolon),
            '*' => self.add_token(TokenType::Star),
            '/' => {
                if self.match_char('/') {
                    while self.peek() != '\n' && !self.is_at_end()
                        invariant
                            self.wf(),
                            self.bytes() == src,
                            self.source == old(self).source,
                            self.tokens == old(self).tokens,
                            self.logger == old(self).logger,
                            self.line == old(self).line,
                            pos + 2 <= self.current,
                            self.current + run_len(src, self.current as int, Run::Comment) == pos
                                + 2 + run_len(src, pos + 2, Run::Comment),
                        decreases src.len() - self.current,
                    {
                        self.advance();
                    }
                } else {
                    self.add_token(TokenType::Slash);
                }
            },
            '!' => {
                let token_type = if self.match_char('=') {
                    TokenType::BangEqual
                } else {
                    TokenType::Bang
                };
                self.add_token(token_type);
            },
            '=' => {
                let token_type = if self.match_char('=') {
                    TokenType::EqualEqual
                } else {
                    TokenType::Equal
                };
                self.add_token(token_type);
            },
            '<' => {
                let token_type = if self.match_char('=') {
                    TokenType::LessEqual
                } else {
                    TokenType::Less
                };
                self.add_token(token_type);
            },
            '>' => {
                let token_type = if self.match_char('=') {
                    TokenType::GreaterEqual
                } else {
                    TokenType::Greater
                };
                self.add_token(token_type);
            },
            // Ignore whitespace.
            ' ' => {},
            '\r' => {},
            '\t' => {},
            '\n' => {
                self.line += 1;
            },
            '"' => {
                self.add_string();
            },
            c => {
                if Self::is_digit(c) {
                    self.add_number();
                } else if Self::is_alpha_or_underscore(c) {
                    self.add_identifier();
                } else {
                    self.logger.scanner_error(self.line, LexError::UnknownCharacter(c).message());
                    assert(self.reported() =~= old(self).reported() + step_reports(
                        step(src, pos, old(self).line_count()),
                    ));
                }
            },
        }
    }

    /// Consumes the next byte if it is `expected`.
    fn match_char(&mut self, expected: char) -> (matched: bool)
        requires
            old(self).wf(),
            old(self).current == old(self).start + 1,
            expected != '\0',
        ensures
            matched == followed_by(old(self).bytes(), old(self).start as int, expected),
            *final(self) == (Scanner {
                current: if matched {
                    (old(self).current + 1) as usize
                } else {
                    old(self).current
                },
                ..*old(self)
            }),
            final(self).wf(),
    {
        if self.is_at_end() || self.current_char() != expected {
            return false;
        }
        self.current += 1;
        true
    }

    /// The byte at the cursor, read as a character.
    fn current_char(&self) -> (c: char)
        requires
            self.wf(),
            self.current < self.bytes().len(),
        ensures
            c == symbol(self.bytes(), self.current as int),
    {
        self.source.as_str().as_bytes()[self.current] as char
    }

    /// The byte after the cursor, read as a character.
    fn next_char(&self) -> (c: char)
        requires
            self.wf(),
            self.current + 1 < self.bytes().len(),
        ensures
            c == symbol(self.bytes(), self.current + 1),
    {
        self.source.as_str().as_bytes()[self.current + 1] as char
    }

    fn is_digit(c: char) -> (yes: bool)
        ensures
            yes == crate::grammar::is_digit(c),
    {
        '0' <= c && c <= '9'
    }

    fn is_alpha_or_underscore(c: char) -> (yes: bool)
        ensures
            yes == crate::grammar::is_alpha_or_underscore(c),
    {
        ('a' <= c && c <= 'z') || ('A' <= c && c <= 'Z') || c == '_'
    }

    fn is_alpha_numeric_or_underscore(c: char) -> (yes: bool)
        ensures
            yes == crate::grammar::is_alpha_numeric_or_underscore(c),
    {
        Self::is_alpha_or_underscore(c) || Self::is_digit(c)
    }

    /// Reads the byte at the cursor and moves the cursor past it.
    fn advance(&mut self) -> (c: char)
        requires
            old(self).wf(),
            old(self).current < old(self).bytes().len(),
        ensures
            c == symbol(old(self).bytes(), old(self).current as int),
            *final(self) == (Scanner { current: (old(self).current + 1) as usize, ..*old(self) }),
            final(self).wf(),
    {
        let c = self.current_char();
        self.current += 1;
        c
    }

    /// The byte at the cursor, or NUL at the end of the source.
    fn peek(&self) -> (c: char)
        requires
            self.wf(),
        ensures
            c == peek_at(self.bytes(), self.current as int),
    {
        if self.is_at_end() {
            return '\0';
        }
        self.current_char()
    }

    /// The byte after the cursor, or NUL where there is none.
    fn peek_next(&self) -> (c: char)
        requires
            self.wf(),
            self.current < self.bytes().len(),
        ensures
            c == peek_at(self.bytes(), self.current + 1),
    {
        if self.current + 1 >= self.source.as_str().as_bytes().len() {
            return '\0';
        }
        self.next_char()
    }

    /// Whether the lexeme between the cursors begins and ends with an ASCII
    /// byte, so that it can be cut out of the source text.
    spec fn lexeme_ready(&self) -> bool {
        &&& self.start < self.current <= self.bytes().len()
        &&& is_ascii_byte(self.bytes()[self.start as int])
        &&& is_ascii_byte(self.bytes()[self.current - 1])
    }

    /// Appends a token without a literal for the lexeme between the cursors.
    fn add_token(&mut self, token_type: TokenType)
        requires
            old(self).lexeme_ready(),
        ensures
            final(self).tokens@.len() == old(self).tokens@.len() + 1,
            final(self).scanned() == old(self).scanned().push(
                crate::grammar::plain(
                    old(self).bytes(),
                    old(self).start as int,
                    (old(self).current - old(self).start) as nat,
                    token_type,
                    old(self).line as nat,
                ).token->0,
            ),
            *final(self) == (Scanner { tokens: final(self).tokens, ..*old(self) }),
    {
        self.add_token_with_literal(token_type, Literal::Nil, self.line)
    }

    /// Appends a token for the lexeme between the cursors.
    fn add_token_with_literal(&mut self, token_type: TokenType, literal: Literal, line: usize)
        requires
            old(self).lexeme_ready(),
        ensures
            final(self).tokens@.len() == old(self).tokens@.len() + 1,
            final(self).scanned() == old(self).scanned().push(
                TokenView {
                    kind: token_type,
                    lexeme: old(self).bytes().subrange(
                        old(self).start as int,
                        old(self).current as int,
                    ),
                    literal: literal@,
                    line: line as nat,
                },
            ),
            *final(self) == (Scanner { tokens: final(self).tokens, ..*old(self) }),
    {
        proof {
            encode_utf8_valid_utf8(self.source@);
            lemma_boundaries_at_ascii(self.bytes(), self.start as int);
            lemma_boundaries_at_ascii(self.bytes(), self.current - 1);
        }
        let lexeme = substring(self.source.as_str(), self.start, self.current);
        self.tokens.push(Token::new(token_type, lexeme, literal, line));
        assert(self.scanned() =~= old(self).scanned().push(
            TokenView {
                kind: token_type,
                lexeme: old(self).bytes().subrange(old(self).start as int, old(self).current as int),
                literal: literal@,
                line: line as nat,
            },
        ));
    }

    /// Scans a string; the opening quote has been consumed.
    fn add_string(&mut self)
        requires
            old(self).wf(),
            old(self).current == old(self).start + 1,
            symbol(old(self).bytes(), old(self).start as int) == '"',
        ensures
            final(self).wf(),
            final(self).bytes() == old(self).bytes(),
            ({
                let s = string_step(
                    old(self).bytes(),
                    old(self).start as int,
                    old(self).line_count(),
                );
                &&& final(self).position() == s.next
                &&& final(self).line_count() == s.line
                &&& final(self).scanned() == old(self).scanned() + step_tokens(s)
                &&& final(self).reported() == old(self).reported() + step_reports(s)
            }),
    {
        let ghost src = self.bytes();
        let ghost pos = self.start as int;
        let first_line = self.line;
        while self.peek() != '"' && !self.is_at_end()
            invariant
                self.wf(),
                self.bytes() == src,
                self.source == old(self).source,
                self.tokens == old(self).tokens,
                self.logger == old(self).logger,
                self.start == old(self).start,
                pos + 1 <= self.current,
                self.current + run_len(src, self.current as int, Run::Text) == pos + 1 + run_len(
                    src,
                    pos + 1,
                    Run::Text,
                ),
                self.line == first_line + newlines(src, pos + 1, self.current as int),
            decreases src.len() - self.current,
        {
            let c = self.advance();
            if c == '\n' {
                self.line += 1;
            }
        }

        if self.is_at_end() {
            self.logger.scanner_error(self.line, LexError::UnterminatedString.message());
            proof {
                let s = string_step(src, pos, old(self).line_count());
                assert(self.reported() =~= old(self).reported() + step_reports(s));
                assert(self.scanned() =~= old(self).scanned() + step_tokens(s));
            }
            return ;
        }
        proof {
            encode_utf8_valid_utf8(self.source@);
            lemma_boundaries_at_ascii(src, pos);
            lemma_boundaries_at_ascii(src, self.current as int);
        }
        let value = substring(self.source.as_str(), self.start + 1, self.current);
        self.advance();  // The closing quote belongs to the lexeme.
        self.add_token_with_literal(TokenType::String, Literal::String(value), first_line);
        proof {
            let s = string_step(src, pos, old(self).line_count());
            assert(self.scanned() =~= old(self).scanned() + step_tokens(s));
            assert(self.reported() =~= old(self).reported() + step_reports(s));
        }
    }

    /// Consumes digits as far as they go.
    fn skip_digits(&mut self)
        requires
            old(self).wf(),
        ensures
            *final(self) == (Scanner {
                current: (old(self).current + run_len(
                    old(self).bytes(),
                    old(self).current as int,
                    Run::Digits,
                )) as usize,
                ..*old(self)
            }),
            final(self).wf(),
    {
        let ghost src = self.bytes();
        let ghost from = self.current as int;
        while Self::is_digit(self.peek())
            invariant
                self.wf(),
                self.bytes() == src,
                *self == (Scanner { current: self.current, ..*old(self) }),
                from <= self.current,
                self.current + run_len(src, self.current as int, Run::Digits) == from + run_len(
                    src,
                    from,
                    Run::Digits,
                ),
            decreases src.len() - self.current,
        {
            self.advance();
        }
    }

    /// The values of the digits that stand from `from` up to `to`.
    fn digits_between(&self, digits: &mut Vec<u8>, from: usize, to: usize)
        requires
            from <= to <= self.bytes().len(),
            forall|i: int| from <= i < to ==> crate::grammar::is_digit(#[trigger] symbol(self.bytes(), i)),
        ensures
            final(digits)@ == old(digits)@ + digit_values(
                self.bytes().subrange(from as int, to as int),
            ),
    {
        let bytes = self.source.as_str().as_bytes();
        let mut i = from;
        while i < to
            invariant
                from <= i <= to <= bytes@.len(),
                bytes@ == self.bytes(),
                forall|i: int|
                    from <= i < to ==> crate::grammar::is_digit(#[trigger] symbol(self.bytes(), i)),
                digits@ == old(digits)@ + digit_values(bytes@.subrange(from as int, i as int)),
            decreases to - i,
        {
            assert(crate::grammar::is_digit(symbol(bytes@, i as int)));
            digits.push(bytes[i] - 0x30);
            i += 1;
            assert(digits@ =~= old(digits)@ + digit_values(
                bytes@.subrange(from as int, i as int),
            ));
        }
        assert(digits@ =~= old(digits)@ + digit_values(
            self.bytes().subrange(from as int, to as int),
        ));
    }

    /// Scans a number; its first digit has been consumed.
    fn add_number(&mut self)
        requires
            old(self).wf(),
            old(self).current == old(self).start + 1,
            crate::grammar::is_digit(symbol(old(self).bytes(), old(self).start as int)),
        ensures
            final(self).wf(),
            final(self).bytes() == old(self).bytes(),
            ({
                let s = number_step(
                    old(self).bytes(),
                    old(self).start as int,
                    old(self).line_count(),
                );
                &&& final(self).position() == s.next
                &&& final(self).line_count() == s.line
                &&& final(self).scanned() == old(self).scanned() + step_tokens(s)
                &&& final(self).reported() == old(self).reported() + step_reports(s)
            }),
    {
        let ghost src = self.bytes();
        let ghost pos = self.start as int;
        self.skip_digits();
        let dot = self.current;
        proof {
            lemma_run_all(src, pos + 1, Run::Digits);
        }
        // Look for a fractional part.
        if self.peek() == '.' && Self::is_digit(self.peek_next()) {
            self.advance();
            self.skip_digits();
            proof {
                lemma_run_all(src, dot + 1, Run::Digits);
            }
        }
        let ghost fraction = fraction_len(src, dot as int);
        assert(self.current == dot + fraction);
        assert(crate::grammar::is_digit(symbol(src, self.current - 1)));
        let scale = if self.current == dot {
            0
        } else {
            self.current - dot - 1
        };
        let mut digits: Vec<u8> = Vec::new();
        self.digits_between(&mut digits, self.start, dot);
        self.digits_between(&mut digits, self.current - scale, self.current);
        self.add_token_with_literal(
            TokenType::Number,
            Literal::Number(Decimal { digits, scale }),
            self.line,
        );
        proof {
            let s = number_step(src, pos, old(self).line_count());
            assert(self.scanned() =~= old(self).scanned() + step_tokens(s));
            assert(self.reported() =~= old(self).reported() + step_reports(s));
        }
    }

    /// Scans a word; its first character has been consumed.
    fn add_identifier(&mut self)
        requires
            old(self).wf(),
            old(self).current == old(self).start + 1,
            crate::grammar::is_alpha_or_underscore(
                symbol(old(self).bytes(), old(self).start as int),
            ),
        ensures
            final(self).wf(),
            final(self).bytes() == old(self).bytes(),
            ({
                let s = word_step(old(self).bytes(), old(self).start as int, old(self).line_count());
                &&& final(self).position() == s.next
                &&& final(self).line_count() == s.line
                &&& final(self).scanned() == old(self).scanned() + step_tokens(s)
                &&& final(self).reported() == old(self).reported() + step_reports(s)
            }),
    {
        let ghost src = self.bytes();
        let ghost pos = self.start as int;
        while Self::is_alpha_numeric_or_underscore(self.peek())
            invariant
                self.wf(),
                self.bytes() == src,
                *self == (Scanner { current: self.current, ..*old(self) }),
                pos + 1 <= self.current,
                self.current + run_len(src, self.current as int, Run::Word) == pos + 1 + run_len(
                    src,
                    pos + 1,
                    Run::Word,
                ),
            decreases src.len() - self.current,
        {
            self.advance();
        }
        proof {
            lemma_run_all(src, pos + 1, Run::Word);
            assert(crate::grammar::is_alpha_numeric_or_underscore(symbol(src, self.current - 1)));
            encode_utf8_valid_utf8(self.source@);
            lemma_boundaries_at_ascii(src, pos);
            lemma_boundaries_at_ascii(src, self.current - 1);
        }
        let text = substring(self.source.as_str(), self.start, self.current);
        let token_type = match keyword(text.as_str()) {
            Some(kind) => kind,
            None => TokenType::Identifier,
        };
        self.add_token(token_type);
        proof {
            let s = word_step(src, pos, old(self).line_count());
            assert(self.scanned() =~= old(self).scanned() + step_tokens(s));
            assert(self.reported() =~= old(self).reported() + step_reports(s));
        }
    }
}

} // verus!
