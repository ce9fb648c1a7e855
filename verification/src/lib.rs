//! Turns C++ interface declarations into Google Mock test-double classes.
//!
//! The library works on a plain declaration tree ([`entity`]) that a caller
//! fills from a C++ parser: [`model`] selects the classes and methods to
//! mock and recovers exact type spellings from the source text, [`naming`]
//! derives mock and file names, [`generate`] renders macro-safe mock code
//! and assembles headers, and [`headerpath`] resolves include paths.

use vstd::prelude::*;

pub mod clangwrap;
pub mod entity;
pub mod generate;
pub mod headerpath;
pub mod log;
pub mod model;
pub mod naming;
pub mod strutil;

verus! {

/// Which methods of a class the generated mock should cover.
#[derive(Clone, Copy, Debug)]
pub enum MethodsToMockStrategy {
    /// Mock all methods, including non-virtual ones (static methods are skipped).
    All,
    /// Mock only virtual methods, including pure virtual ones.
    AllVirtual,
    /// Mock only pure virtual methods.
    OnlyPureVirtual,
}

/// Errors produced while configuring or running the mock generation.
#[derive(Debug, PartialEq)]
pub enum MocksmithError {
    /// Another thread currently holds the parser resource.
    Busy,
    /// A thread holding the parser resource panicked.
    Poisoned,
    /// The native parser library could not be loaded.
    ClangError(String),
    /// A malformed sed style replacement string was supplied.
    InvalidSedReplacement(String),
    /// The source text could not be parsed.
    ParseError {
        message: String,
        file: Option<String>,
        line: u32,
        column: u32,
    },
    /// No class qualified for mocking.
    NothingToMock,
}

pub type MocksmithResult<T> = core::result::Result<T, MocksmithError>;

/// The display text of an error.
pub open spec fn spec_error_message(e: MocksmithError) -> Seq<char> {
    match e {
        MocksmithError::Busy => "Another thread is already using Mocksmith"@,
        MocksmithError::Poisoned => "Another thread using Mocksmith panicked"@,
        MocksmithError::ClangError(s) => "Could not access Clang: "@ + s@,
        MocksmithError::InvalidSedReplacement(s) => "Invalid sed style replacement string: "@
            + s@,
        MocksmithError::ParseError { message, file, line, column } => {
            let file_part = match file {
                Some(f) => " in file "@ + f@ + " "@,
                None => Seq::<char>::empty(),
            };
            "Parse error "@ + file_part + "at line "@ + strutil::spec_digits(line as nat)
                + ", column "@ + strutil::spec_digits(column as nat) + ": "@ + message@
        },
        MocksmithError::NothingToMock => "No appropriate class to mock was found in the file"@,
    }
}

impl MocksmithError {
    /// The error rendered as text, as a diagnostic for the user.
    pub fn message(&self) -> (r: String)
        ensures
            r@ == spec_error_message(*self),
    {
        match self {
            MocksmithError::Busy => "Another thread is already using Mocksmith".to_owned(),
            MocksmithError::Poisoned => "Another thread using Mocksmith panicked".to_owned(),
            MocksmithError::ClangError(s) => {
                let mut r = String::new();
                r.append("Could not access Clang: ");
                r.append(s.as_str());
                r
            },
            MocksmithError::InvalidSedReplacement(s) => {
                let mut r = String::new();
                r.append("Invalid sed style replacement string: ");
                r.append(s.as_str());
                r
            },
            MocksmithError::ParseError { message, file, line, column } => {
                let mut r = String::new();
                r.append("Parse error ");
                match file {
                    Some(f) => {
                        r.append(" in file ");
                        r.append(f.as_str());
                        r.append(" ");
                    },
                    None => {},
                }
                r.append("at line ");
                let line_digits = strutil::u64_to_string(*line as u64);
                r.append(line_digits.as_str());
                r.append(", column ");
                let column_digits = strutil::u64_to_string(*column as u64);
                r.append(column_digits.as_str());
                r.append(": ");
                r.append(message.as_str());
                r
            },
            MocksmithError::NothingToMock => {
                "No appropriate class to mock was found in the file".to_owned()
            },
        }
    }
}

/// A generated mock class.
#[derive(Debug, PartialEq)]
pub struct Mock {
    /// Path to the header file declaring the mocked class, when it came from a file.
    pub source_file: Option<String>,
    /// Name of the mocked class.
    pub parent_name: String,
    /// Name of the mock class.
    pub name: String,
    /// Code for the mock class.
    pub code: String,
}

/// A generated header holding one or more mocks.
#[derive(Debug, PartialEq)]
pub struct MockHeader {
    /// The mocks within the header.
    pub mocks: Vec<Mock>,
    /// Code for the complete header.
    pub code: String,
}

impl MockHeader {
    pub fn new() -> (r: Self)
        ensures
            r.mocks@.len() == 0,
            r.code@.len() == 0,
    {
        Self { mocks: Vec::new(), code: String::new() }
    }
}

} // verus!
