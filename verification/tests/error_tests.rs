use mocksmith::clangwrap::{check_diagnostics, clang_arguments, Diagnostic, DiagnosticSeverity};
use mocksmith::log::Logger;
use mocksmith::MocksmithError;

fn error_diag(message: &str, line: u32, column: u32) -> Diagnostic {
    Diagnostic {
        severity: DiagnosticSeverity::Error,
        message: message.to_string(),
        file: None,
        line,
        column,
    }
}

#[test]
fn unknown_argument_type_is_treated_as_error() {
    let diagnostics = vec![error_diag("unknown type name 'Unknown'", 5, 36)];
    let mut log = Logger::new(false);
    assert_eq!(
        check_diagnostics(&diagnostics, false, &mut log),
        Err(MocksmithError::ParseError {
            message: "unknown type name 'Unknown'".to_string(),
            file: None,
            line: 5,
            column: 36
        })
    );

    let diagnostics = vec![error_diag("use of undeclared identifier 'std'", 6, 37)];
    assert_eq!(
        check_diagnostics(&diagnostics, false, &mut log),
        Err(MocksmithError::ParseError {
            message: "use of undeclared identifier 'std'".to_string(),
            file: None,
            line: 6,
            column: 37
        })
    );
}

#[test]
fn unknown_return_type_is_treated_as_error() {
    let diagnostics = vec![error_diag("unknown type name 'Unknown'", 5, 21)];
    let mut log = Logger::new(false);
    assert_eq!(
        check_diagnostics(&diagnostics, false, &mut log),
        Err(MocksmithError::ParseError {
            message: "unknown type name 'Unknown'".to_string(),
            file: None,
            line: 5,
            column: 21
        })
    );
}

#[test]
fn first_error_wins_and_warnings_pass() {
    let diagnostics = vec![
        Diagnostic {
            severity: DiagnosticSeverity::Warning,
            message: "something minor".to_string(),
            file: Some("a.h".to_string()),
            line: 1,
            column: 2,
        },
        error_diag("first error", 3, 4),
        error_diag("second error", 5, 6),
    ];
    let mut log = Logger::new(false);
    assert_eq!(
        check_diagnostics(&diagnostics, false, &mut log),
        Err(MocksmithError::ParseError {
            message: "first error".to_string(),
            file: None,
            line: 3,
            column: 4
        })
    );

    let only_warnings = vec![Diagnostic {
        severity: DiagnosticSeverity::Warning,
        message: "something minor".to_string(),
        file: None,
        line: 1,
        column: 2,
    }];
    assert_eq!(check_diagnostics(&only_warnings, false, &mut log), Ok(()));
}

#[test]
fn ignoring_errors_logs_them_and_succeeds() {
    let diagnostics = vec![error_diag("tolerated", 1, 1)];
    let mut log = Logger::new(false);
    assert_eq!(check_diagnostics(&diagnostics, true, &mut log), Ok(()));
    assert_eq!(log.messages().as_slice(), ["tolerated".to_string()]);
}

#[test]
fn clang_arguments_default_to_cpp17_and_current_dir() {
    let args = clang_arguments(&None, &Vec::new(), &Vec::new());
    assert_eq!(
        args,
        vec![
            "--language=c++".to_string(),
            "-std=c++17".to_string(),
            "-Wno-pragma-once-outside-header".to_string(),
            "-I.".to_string(),
        ]
    );
}

#[test]
fn clang_arguments_take_standard_dirs_and_extras() {
    let args = clang_arguments(
        &Some("c++11".to_string()),
        &vec!["inc".to_string(), "other".to_string()],
        &vec!["-DSOMETHING".to_string()],
    );
    assert_eq!(
        args,
        vec![
            "--language=c++".to_string(),
            "-std=c++11".to_string(),
            "-Wno-pragma-once-outside-header".to_string(),
            "-Iinc".to_string(),
            "-Iother".to_string(),
            "-DSOMETHING".to_string(),
        ]
    );
}

#[test]
fn error_messages_match_their_variants() {
    assert_eq!(
        MocksmithError::Busy.message(),
        "Another thread is already using Mocksmith"
    );
    assert_eq!(
        MocksmithError::Poisoned.message(),
        "Another thread using Mocksmith panicked"
    );
    assert_eq!(
        MocksmithError::ClangError("no library".to_string()).message(),
        "Could not access Clang: no library"
    );
    assert_eq!(
        MocksmithError::InvalidSedReplacement("bad".to_string()).message(),
        "Invalid sed style replacement string: bad"
    );
    assert_eq!(
        MocksmithError::NothingToMock.message(),
        "No appropriate class to mock was found in the file"
    );
    assert_eq!(
        MocksmithError::ParseError {
            message: "boom".to_string(),
            file: None,
            line: 5,
            column: 36,
        }
        .message(),
        "Parse error at line 5, column 36: boom"
    );
    assert_eq!(
        MocksmithError::ParseError {
            message: "boom".to_string(),
            file: Some("dir/file.h".to_string()),
            line: 12,
            column: 3,
        }
        .message(),
        "Parse error  in file dir/file.h at line 12, column 3: boom"
    );
}
