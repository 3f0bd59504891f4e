//! Lexical errors and the collector that the scanner reports them to.

use vstd::prelude::*;
use vstd::string::*;

verus! {

/// `String::push` appends one character to the end of the string.
pub assume_specification[ std::string::String::push ](s: &mut std::string::String, c: char)
    ensures
        final(s)@ == old(s)@.push(c),
;

/// What can be wrong with a piece of source text.
#[derive(Debug, Clone, Copy, PartialEq, Eq, Structural)]
pub enum LexError {
    /// A byte that starts no lexeme, read as a character.
    UnknownCharacter(char),
    /// A `"` with no closing `"` before the end of the input.
    UnterminatedString,
}

impl LexError {
    /// The text of the error's message.
    pub open spec fn message_text(self) -> Seq<char> {
        match self {
            LexError::UnknownCharacter(c) => "Unknown character found: "@.push(c),
            LexError::UnterminatedString => "Unterminated string literal"@,
        }
    }

    /// The error's message.
    pub fn message(&self) -> (text: String)
        ensures
            text@ == self.message_text(),
    {
        match self {
            LexError::UnknownCharacter(c) => {
                let mut text = String::from_str("Unknown character found: ");
                text.push(*c);
                text
            },
            LexError::UnterminatedString => String::from_str("Unterminated string literal"),
        }
    }
}

/// One reported error.
#[derive(Debug, PartialEq, Eq)]
pub struct Report {
    /// The 1-based source line at which the error was detected.
    pub line: usize,
    /// Where on the line, as text that follows the word `Error`; may be empty.
    pub location: String,
    pub message: String,
}

/// The mathematical content of a [`Report`].
pub struct ReportView {
    pub line: nat,
    pub location: Seq<char>,
    pub message: Seq<char>,
}

/// The decimal digit for a value below ten.
pub open spec fn digit_char(d: nat) -> char {
    (0x30 + d) as char
}

/// A natural number in decimal, without leading zeros.
pub open spec fn decimal_text(n: nat) -> Seq<char>
    decreases n,
{
    if n < 10 {
        seq![digit_char(n)]
    } else {
        decimal_text(n / 10).push(digit_char(n % 10))
    }
}

impl ReportView {
    /// The report as one line of text: `[line 3] Error: message`, with the
    /// location between `Error` and the colon.
    pub open spec fn rendered(self) -> Seq<char> {
        "[line "@ + decimal_text(self.line) + "] Error"@ + self.location + ": "@ + self.message
    }
}

/// Appends `n` in decimal to `text`.
fn push_decimal(text: &mut String, n: usize)
    ensures
        final(text)@ == old(text)@ + decimal_text(n as nat),
    decreases n,
{
    if n >= 10 {
        push_decimal(text, n / 10);
    }
    let digit = (n % 10) as u8;
    text.push((0x30 + digit) as char);
    assert(text@ =~= old(text)@ + decimal_text(n as nat));
}

impl Report {
    /// The report as one line of text.
    pub fn render(&self) -> (text: String)
        ensures
            text@ == self@.rendered(),
    {
        let mut text = String::from_str("[line ");
        push_decimal(&mut text, self.line);
        text.append("] Error");
        text.append(self.location.as_str());
        text.append(": ");
        text.append(self.message.as_str());
        text
    }
}

impl View for Report {
    type V = ReportView;

    open spec fn view(&self) -> ReportView {
        ReportView { line: self.line as nat, location: self.location@, message: self.message@ }
    }
}

/// The views of a sequence of reports, in order.
pub open spec fn report_views(reports: Seq<Report>) -> Seq<ReportView> {
    Seq::new(reports.len(), |i: int| reports[i]@)
}

/// Collects the errors reported during one scan, in the order reported.
#[derive(Debug, PartialEq, Eq)]
pub struct LoxLogger {
    pub reports: Vec<Report>,
}

impl View for LoxLogger {
    type V = Seq<ReportView>;

    open spec fn view(&self) -> Seq<ReportView> {
        report_views(self.reports@)
    }
}

impl LoxLogger {
    /// A collector that holds no report.
    pub fn new() -> (logger: LoxLogger)
        ensures
            logger@ == Seq::<ReportView>::empty(),
    {
        let logger = LoxLogger { reports: Vec::new() };
        assert(logger@ =~= Seq::<ReportView>::empty());
        logger
    }

    /// Records an error found at `line`, with no location on the line.
    pub fn scanner_error(&mut self, line: usize, message: String)
        ensures
            final(self)@ == old(self)@.push(
                ReportView { line: line as nat, location: Seq::<char>::empty(), message: message@ },
            ),
    {
        self.scanner_report(line, String::new(), message)
    }

    /// Records an error found at `line` and `location`.
    pub fn scanner_report(&mut self, line: usize, location: String, message: String)
        ensures
            final(self)@ == old(self)@.push(
                ReportView { line: line as nat, location: location@, message: message@ },
            ),
    {
        self.reports.push(Report { line, location, message });
        assert(self@ =~= old(self)@.push(
            ReportView { line: line as nat, location: location@, message: message@ },
        ));
    }

    /// Whether any error was reported.
    pub fn had_error(&self) -> (had: bool)
        ensures
            had == (self@.len() > 0),
    {
        self.reports.len() > 0
    }
}

} // verus!
