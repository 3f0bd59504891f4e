//! What the command-line driver decides: how to run, and how a run ends.

use vstd::prelude::*;
use vstd::string::*;
use vstd::utf8::encode_utf8;
use crate::grammar::scan;
use crate::logger::{report_views, Report};
use crate::scanner::Scanner;
use crate::token::{token_views, Token};

verus! {

/// The exit status for a wrong command line.
pub const EXIT_USAGE: i32 = 64;

/// The exit status for a source text with lexical errors.
pub const EXIT_BAD_INPUT: i32 = 65;

/// The exit status for a script that cannot be read.
pub const EXIT_IO_FAILURE: i32 = -1;

/// What the driver does, by the number of its arguments.
#[derive(Debug, Clone, Copy, PartialEq, Eq, Structural)]
pub enum Mode {
    /// No argument: read and run line by line.
    Prompt,
    /// One argument: run the script at that path.
    Script,
    /// More arguments: print the usage and exit with `EXIT_USAGE`.
    Usage,
}

/// The mode for a command line with `arguments` arguments behind the
/// program's name.
pub fn mode(arguments: usize) -> (mode: Mode)
    ensures
        mode == (if arguments > 1 {
            Mode::Usage
        } else if arguments == 1 {
            Mode::Script
        } else {
            Mode::Prompt
        }),
{
    if arguments > 1 {
        Mode::Usage
    } else if arguments == 1 {
        Mode::Script
    } else {
        Mode::Prompt
    }
}

/// The line that tells how the program is called.
pub fn usage() -> (text: String)
    ensures
        text@ == "Usage: lox <path to script>"@,
{
    String::from_str("Usage: lox <path to script>")
}

/// Scans one unit of source text.  The tokens come back where the text has
/// no lexical error; else every error found, in order.  Each call stands
/// alone: nothing of one unit's errors is left for the next.
pub fn run(source: String) -> (outcome: Result<Vec<Token>, Vec<Report>>)
    requires
        encode_utf8(source@).len() < usize::MAX,
    ensures
        match outcome {
            Ok(tokens) => {
                &&& scan(encode_utf8(source@)).reports.len() == 0
                &&& token_views(tokens@) == scan(encode_utf8(source@)).tokens
            },
            Err(reports) => {
                &&& reports@.len() > 0
                &&& report_views(reports@) == scan(encode_utf8(source@)).reports
            },
        },
{
    let mut scanner = Scanner::new(source);
    scanner.scan_tokens();
    let (tokens, reports) = scanner.finish();
    if reports.len() > 0 {
        Err(reports)
    } else {
        Ok(tokens)
    }
}

/// The status with which the process ends after `run`, if it ends.
pub fn exit_status(outcome: &Result<Vec<Token>, Vec<Report>>) -> (status: Option<i32>)
    ensures
        status == (if outcome is Err {
            Some(EXIT_BAD_INPUT)
        } else {
            None
        }),
{
    match outcome {
        Ok(_) => None,
        Err(_) => Some(EXIT_BAD_INPUT),
    }
}

} // verus!
