use lox::logger::{LexError, LoxLogger, Report};

#[test]
fn new_logger_is_empty() {
    let logger = LoxLogger::new();
    assert!(logger.reports.is_empty());
    assert!(!logger.had_error());
}

#[test]
fn scanner_error_appends_a_report_without_location() {
    let mut logger = LoxLogger::new();
    logger.scanner_error(3, "first".to_string());
    logger.scanner_error(1, "second".to_string());
    assert!(logger.had_error());
    assert_eq!(
        logger.reports,
        vec![
            Report { line: 3, location: String::new(), message: "first".to_string() },
            Report { line: 1, location: String::new(), message: "second".to_string() },
        ]
    );
}

#[test]
fn scanner_report_keeps_the_location() {
    let mut logger = LoxLogger::new();
    logger.scanner_report(12, " at end".to_string(), "Expect expression.".to_string());
    assert_eq!(
        logger.reports,
        vec![Report {
            line: 12,
            location: " at end".to_string(),
            message: "Expect expression.".to_string(),
        }]
    );
}

#[test]
fn messages_of_the_errors() {
    assert_eq!(LexError::UnterminatedString.message(), "Unterminated string literal");
    assert_eq!(LexError::UnknownCharacter('@').message(), "Unknown character found: @");
    assert_eq!(LexError::UnknownCharacter('\u{e9}').message(), "Unknown character found: \u{e9}");
}

#[test]
fn render_writes_the_line_in_decimal() {
    let report = |line: usize| Report {
        line,
        location: String::new(),
        message: "Unterminated string literal".to_string(),
    };
    assert_eq!(report(0).render(), "[line 0] Error: Unterminated string literal");
    assert_eq!(report(7).render(), "[line 7] Error: Unterminated string literal");
    assert_eq!(report(10).render(), "[line 10] Error: Unterminated string literal");
    assert_eq!(report(1203).render(), "[line 1203] Error: Unterminated string literal");
    assert_eq!(
        report(usize::MAX).render(),
        format!("[line {}] Error: Unterminated string literal", usize::MAX)
    );
}

#[test]
fn render_puts_the_location_before_the_colon() {
    let report = Report {
        line: 42,
        location: " at 'x'".to_string(),
        message: "Unknown character found: @".to_string(),
    };
    assert_eq!(report.render(), "[line 42] Error at 'x': Unknown character found: @");
}
