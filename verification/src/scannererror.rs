//! Scanner errors in the compact report layout.

use vstd::prelude::*;
use crate::scanner::Scanner;
use crate::diagnostics::{CodeInformation, CodeInfo, error_display, reportable, spec_error_display};

verus! {

impl<'a> CodeInformation for Scanner<'a> {
    /// One character is underlined.
    open spec fn spec_item_span(&self) -> nat {
        1
    }

    /// No description is given.
    open spec fn spec_description(&self) -> Seq<char> {
        Seq::empty()
    }

    fn item_span(&self) -> (r: usize) {
        1
    }

    fn description(&self) -> (r: String) {
        String::new()
    }

    open spec fn spec_raw_code(&self) -> Seq<char> {
        Scanner::spec_raw_code(self)
    }

    open spec fn spec_cursor_pos(&self) -> nat {
        Scanner::spec_cursor_pos(self)
    }

    open spec fn spec_file_name(&self) -> Seq<char> {
        Scanner::spec_file_name(self)
    }

    open spec fn spec_line_number(&self) -> nat {
        Scanner::spec_line_number(self)
    }

    fn raw_code(&self) -> (r: String) {
        crate::error::codeinfo::CodeInformation::raw_code(self)
    }

    fn cursor_pos(&self) -> (r: usize) {
        crate::error::codeinfo::CodeInformation::cursor_pos(self)
    }

    fn file_name(&self) -> (r: String) {
        crate::error::codeinfo::CodeInformation::file_name(self)
    }

    fn line_number(&self) -> (r: usize) {
        crate::error::codeinfo::CodeInformation::line_number(self)
    }
}

/// An error found while scanning, with the place it points at.
pub enum ScannerError {
    /// A code segment that never ends.
    UCS { info: CodeInfo },
    /// A character that starts no token.
    IC { info: CodeInfo },
    /// A number that cannot be read.
    NP { info: CodeInfo },
}

impl ScannerError {
    /// An unterminated code segment, pointing `offset` characters back from
    /// the scanner's position and underlining `span` characters.
    pub fn unterminated_code_segment(
        scanner: &Scanner,
        offset: usize,
        span: usize,
        description: &str,
    ) -> (r: ScannerError)
        requires
            offset <= scanner.spec_cursor_pos(),
        ensures
            r matches ScannerError::UCS { info } && info.raw_code@ == scanner.spec_raw_code()
                && info.pos == scanner.spec_cursor_pos() - offset && info.file_name@
                == scanner.spec_file_name() && info.line_number == scanner.spec_line_number()
                && info.span == span && info.description@ == description@,
    {
        let mut info = CodeInfo::from(scanner);
        info.pos = info.pos - offset;
        info.span = span;
        info.description = description.to_owned();
        ScannerError::UCS { info }
    }

    /// An illegal or unknown character at the scanner's position.
    pub fn illegal_character(scanner: &Scanner) -> (r: ScannerError)
        ensures
            r matches ScannerError::IC { info } && info.raw_code@ == scanner.spec_raw_code()
                && info.pos == scanner.spec_cursor_pos() && info.file_name@
                == scanner.spec_file_name() && info.line_number == scanner.spec_line_number()
                && info.span == 1 && info.description@ == Seq::<char>::empty(),
    {
        let info = CodeInfo::from(scanner);
        ScannerError::IC { info }
    }

    /// A number that cannot be read, at the scanner's position.
    pub fn number_parsing(scanner: &Scanner) -> (r: ScannerError)
        ensures
            r matches ScannerError::NP { info } && info.raw_code@ == scanner.spec_raw_code()
                && info.pos == scanner.spec_cursor_pos() && info.file_name@
                == scanner.spec_file_name() && info.line_number == scanner.spec_line_number()
                && info.span == 1 && info.description@ == Seq::<char>::empty(),
    {
        let info = CodeInfo::from(scanner);
        ScannerError::NP { info }
    }

    /// The information the error points with.
    pub open spec fn spec_info(&self) -> CodeInfo {
        match self {
            ScannerError::UCS { info } | ScannerError::IC { info } | ScannerError::NP { info } => *info,
        }
    }

    /// The name of the kind of error.
    pub open spec fn spec_kind(&self) -> Seq<char> {
        match self {
            ScannerError::UCS { .. } => "Unterminated Code Segment"@,
            ScannerError::IC { .. } => "Illegal Character"@,
            ScannerError::NP { .. } => "Error Parsing Number"@,
        }
    }

    /// The report, titled "scanner" (see `spec_error_display`).
    pub fn to_display_string(&self) -> (r: String)
        requires
            reportable(self.spec_info()),
        ensures
            r@ == spec_error_display(self.spec_info(), "scanner"@, self.spec_kind()),
    {
        match self {
            ScannerError::UCS { info } => error_display(info, "scanner", "Unterminated Code Segment"),
            ScannerError::IC { info } => error_display(info, "scanner", "Illegal Character"),
            ScannerError::NP { info } => error_display(info, "scanner", "Error Parsing Number"),
        }
    }
}

} // verus!
