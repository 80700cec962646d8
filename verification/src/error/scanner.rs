//! The errors the scanner reports.

use vstd::prelude::*;
use crate::scanner::Scanner;
use crate::error::codeinfo::{CodeInformation, CodeInfo};
use crate::error::{display_error_general, display_error, displayable, spec_display_error};

verus! {

/// An error found while scanning.
pub enum ScannerError {
    /// A general error, with its description.
    GEN(String),
    /// A code segment (string, long string, comment) that never ends.
    UCS(CodeInfo),
    /// A character that starts no token.
    IC(CodeInfo),
    /// A number that cannot be read.
    NP(CodeInfo),
}

impl ScannerError {
    /// A general error with the given description.
    pub fn general(description: &str) -> (r: ScannerError)
        ensures
            r matches ScannerError::GEN(d) && d@ == description@,
    {
        ScannerError::GEN(description.to_owned())
    }

    /// An unterminated code segment, pointing `offset` characters back from
    /// the scanner's position and underlining `span` characters.
    pub fn unterminated_code_segment(
        scanner: &Scanner,
        offset: usize,
        span: usize,
        description: &str,
    ) -> (r: ScannerError)
        requires
            offset <= scanner.spec_cursor_pos(),
        ensures
            r matches ScannerError::UCS(info) && info.description@ == description@
                && info.span == span && info.cursor_pos == scanner.spec_cursor_pos() - offset
                && info.raw_code@ == scanner.spec_raw_code() && info.file_name@
                == scanner.spec_file_name() && info.line_number == scanner.spec_line_number(),
    {
        let mut code_info = CodeInformation::into_codeinfo(scanner);
        code_info.description = description.to_owned();
        code_info.span = span;
        code_info.cursor_pos = code_info.cursor_pos - offset;
        ScannerError::UCS(code_info)
    }

    /// An illegal or unknown character at the scanner's position, with the
    /// given description or else "unknown character".
    pub fn illegal_character(scanner: &Scanner, description: Option<&str>) -> (r: ScannerError)
        ensures
            r matches ScannerError::IC(info) && info.description@ == (match description {
                Some(d) => d@,
                None => "unknown character"@,
            }) && info.span == 1 && info.cursor_pos == scanner.spec_cursor_pos()
                && info.raw_code@ == scanner.spec_raw_code() && info.file_name@
                == scanner.spec_file_name() && info.line_number == scanner.spec_line_number(),
    {
        let mut code_info = CodeInformation::into_codeinfo(scanner);
        if let Some(description) = description {
            code_info.description = description.to_owned();
        } else {
            code_info.description = "unknown character".to_owned();
        }
        ScannerError::IC(code_info)
    }

    /// A number that cannot be read, at the scanner's position, underlining
    /// `span` characters.
    pub fn number_parsing(scanner: &Scanner, span: usize, description: &str) -> (r: ScannerError)
        ensures
            r matches ScannerError::NP(info) && info.description@ == description@ && info.span
                == span && info.cursor_pos == scanner.spec_cursor_pos() && info.raw_code@
                == scanner.spec_raw_code() && info.file_name@ == scanner.spec_file_name()
                && info.line_number == scanner.spec_line_number(),
    {
        let mut code_info = CodeInformation::into_codeinfo(scanner);
        code_info.description = description.to_owned();
        code_info.span = span;
        ScannerError::NP(code_info)
    }
    /// Whether the report can be shown (see `displayable`).
    pub open spec fn can_display(&self) -> bool {
        match self {
            ScannerError::GEN(_) => true,
            ScannerError::UCS(info) | ScannerError::IC(info) | ScannerError::NP(info) => displayable(
                *info,
            ),
        }
    }

    /// The report: a general message, or the code with the place marked,
    /// titled by the kind of error.
    pub fn to_display_string(&self) -> (r: String)
        requires
            self.can_display(),
        ensures
            r@ == match self {
                ScannerError::GEN(d) => "ERROR : "@ + d@,
                ScannerError::UCS(info) => spec_display_error("unterminated code segment"@, *info),
                ScannerError::IC(info) => spec_display_error("unknown character"@, *info),
                ScannerError::NP(info) => spec_display_error("number parsing"@, *info),
            },
    {
        match self {
            ScannerError::GEN(desc) => display_error_general(desc.as_str()),
            ScannerError::UCS(code_info) => display_error("unterminated code segment", code_info),
            ScannerError::IC(code_info) => display_error("unknown character", code_info),
            ScannerError::NP(code_info) => display_error("number parsing", code_info),
        }
    }
}

} // verus!
