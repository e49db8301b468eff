use icx_rustc::diagnostics::{classify_line, Diagnostic, DiagnosticReporter, DiagnosticTotals};

fn error_message(d: &Diagnostic) -> String {
    match d {
        Diagnostic::Error { message } => message.clone(),
        _ => panic!("not an error record"),
    }
}

#[test]
fn location_line_round_trip() {
    let d = classify_line("   --> src/main.rs:3:5");
    match &d {
        Diagnostic::Location { file, row, col } => {
            assert_eq!(file, "src/main.rs");
            assert_eq!(row, "3");
            assert_eq!(col, "5");
        }
        _ => panic!("expected a location"),
    }
    assert_eq!(d.counts(), (0, 0));
}

#[test]
fn location_file_takes_as_much_as_it_can() {
    match classify_line("--> a:1:2:3:4") {
        Diagnostic::Location { file, row, col } => {
            assert_eq!(file, "a:1:2");
            assert_eq!(row, "3");
            assert_eq!(col, "4");
        }
        _ => panic!("expected a location"),
    }
}

#[test]
fn location_wins_over_error_text() {
    match classify_line("  --> error.rs:10:20 error: x") {
        Diagnostic::Location { file, row, col } => {
            assert_eq!(file, "error.rs");
            assert_eq!(row, "10");
            assert_eq!(col, "20");
        }
        _ => panic!("expected a location"),
    }
}

#[test]
fn error_with_code_keeps_code() {
    let d = classify_line("error[E0382]: use of moved value");
    assert_eq!(error_message(&d), "[E0382] use of moved value");
    assert!(error_message(&d).contains("E0382"));
    assert_eq!(d.counts(), (0, 1));
}

#[test]
fn error_without_code() {
    let d = classify_line("error: aborting due to previous error");
    assert_eq!(error_message(&d), " aborting due to previous error");
    assert_eq!(d.counts(), (0, 1));
}

#[test]
fn malformed_error_code_is_plain() {
    let d = classify_line("error[X1]: nope");
    assert!(matches!(d, Diagnostic::Plain { .. }));
    assert_eq!(d.counts(), (0, 0));
}

#[test]
fn warning_line() {
    let d = classify_line("warning: unused variable");
    match &d {
        Diagnostic::Warning { message } => assert_eq!(message, " unused variable"),
        _ => panic!("expected a warning"),
    }
    assert_eq!(d.counts(), (1, 0));
}

#[test]
fn note_and_help_lines() {
    match classify_line("   = note: `#[warn(unused)]` on by default  ") {
        Diagnostic::Note { message } => assert_eq!(message, "`#[warn(unused)]` on by default"),
        _ => panic!("expected a note"),
    }
    match classify_line("  = help: consider cloning") {
        Diagnostic::Help { message } => assert_eq!(message, "consider cloning"),
        _ => panic!("expected a help line"),
    }
    match classify_line(" = note: a = note: b") {
        Diagnostic::Note { message } => assert_eq!(message, "a  b"),
        _ => panic!("expected a note"),
    }
}

#[test]
fn code_context_lines() {
    match classify_line("  |     ^^^ value used here") {
        Diagnostic::Code { line, pointer } => {
            assert_eq!(line, "  |     ^^^ value used here");
            assert!(pointer);
        }
        _ => panic!("expected code context"),
    }
    match classify_line("3 | let x = 5;") {
        Diagnostic::Plain { .. } => {}
        _ => panic!("expected plain"),
    }
    match classify_line("   |") {
        Diagnostic::Code { pointer, .. } => assert!(!pointer),
        _ => panic!("expected code context"),
    }
}

#[test]
fn anything_else_is_plain() {
    match classify_line("For more information about this error") {
        Diagnostic::Plain { line } => assert_eq!(line, "For more information about this error"),
        _ => panic!("expected plain"),
    }
    assert!(matches!(classify_line(""), Diagnostic::Plain { .. }));
    assert!(matches!(classify_line("--> no location"), Diagnostic::Plain { .. }));
}

#[test]
fn classification_is_stateless() {
    let r = DiagnosticReporter::new();
    let lines = ["error[E0382]: use of moved value", "   --> src/main.rs:3:5", "warning: x"];
    for l in lines {
        let a = r.classify(l);
        let b = r.classify(l);
        assert_eq!(format!("{:?}", a), format!("{:?}", b));
        assert_eq!(a.counts(), b.counts());
    }
}

#[test]
fn totals_accumulate() {
    let mut t = DiagnosticTotals::new();
    for l in ["error: a", "warning: b", "warning: c", "  --> x.rs:1:1", "plain"] {
        t.record(classify_line(l).counts());
    }
    assert_eq!(t.warnings, 2);
    assert_eq!(t.errors, 1);
}

#[test]
fn totals_saturate() {
    let mut t = DiagnosticTotals { warnings: u64::MAX, errors: 0 };
    t.record(classify_line("warning: again").counts());
    assert_eq!(t.warnings, u64::MAX);
}

#[test]
fn coded_error_with_empty_rest_and_tabbed_location() {
    assert_eq!(error_message(&classify_line("error[E1]:")), "[E1]");
    match classify_line("\t --> C:\\src\\lib.rs:12:34") {
        Diagnostic::Location { file, row, col } => {
            assert_eq!(file, "C:\\src\\lib.rs");
            assert_eq!(row, "12");
            assert_eq!(col, "34");
        }
        _ => panic!("expected a location"),
    }
}

#[test]
fn non_ascii_decimal_digits_count_as_digits() {
    match classify_line("   --> a.rs:\u{663}:\u{665}") {
        Diagnostic::Location { file, row, col } => {
            assert_eq!(file, "a.rs");
            assert_eq!(row, "\u{663}");
            assert_eq!(col, "\u{665}");
        }
        _ => panic!("expected a location"),
    }
    let d = classify_line("error[E\u{967}\u{968}]: x");
    assert_eq!(error_message(&d), "[E\u{967}\u{968}] x");
    assert_eq!(d.counts(), (0, 1));
    assert!(matches!(classify_line("--> a.rs:\u{b2}:1"), Diagnostic::Plain { .. }));
}
