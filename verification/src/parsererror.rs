//! Parser errors in the compact report layout.

use vstd::prelude::*;
use crate::parser::Parser;
use crate::diagnostics::{CodeInformation, CodeInfo, error_display, reportable, spec_error_display};

verus! {

impl<'a> CodeInformation for Parser<'a> {
    /// One character is underlined.
    open spec fn spec_item_span(&self) -> nat {
        1
    }

    /// No description is given.
    open spec fn spec_description(&self) -> Seq<char> {
        Seq::empty()
    }

    fn item_span(&self) -> (r: usize) {
        1
    }

    fn description(&self) -> (r: String) {
        String::new()
    }

    open spec fn spec_raw_code(&self) -> Seq<char> {
        self.raw_code@
    }

    open spec fn spec_cursor_pos(&self) -> nat {
        0
    }

    open spec fn spec_file_name(&self) -> Seq<char> {
        self.file_name@
    }

    open spec fn spec_line_number(&self) -> nat {
        0
    }

    fn raw_code(&self) -> (r: String) {
        self.raw_code.to_owned()
    }

    fn cursor_pos(&self) -> (r: usize) {
        0
    }

    fn file_name(&self) -> (r: String) {
        self.file_name.clone()
    }

    fn line_number(&self) -> (r: usize) {
        0
    }
}

/// An error found while parsing, with the place it points at.
pub enum ParserError {
    /// A code segment that never ends.
    UCS { info: CodeInfo },
}

impl ParserError {
    /// An unterminated code segment, pointing `offset` characters back from
    /// the parser's position (which is the start of the code) and
    /// underlining `span` characters.
    pub fn unterminated_code_segment(parser: &Parser, offset: usize, span: usize, description: &str) -> (r:
        ParserError)
        requires
            offset == 0,
        ensures
            r matches ParserError::UCS { info } && info.raw_code@ == parser.raw_code@ && info.pos == 0
                && info.file_name@ == parser.file_name@ && info.line_number == 0 && info.span == span
                && info.description@ == description@,
    {
        let mut info = CodeInfo::from(parser);
        info.pos = info.pos - offset;
        info.span = span;
        info.description = description.to_owned();
        ParserError::UCS { info }
    }

    /// The report, titled "parser" (see `spec_error_display`).
    pub fn to_display_string(&self) -> (r: String)
        requires
            self matches ParserError::UCS { info } && reportable(*info),
        ensures
            self matches ParserError::UCS { info } && r@ == spec_error_display(
                *info,
                "parser"@,
                "Unterminated Code Segment"@,
            ),
    {
        match self {
            ParserError::UCS { info } => error_display(info, "parser", "Unterminated Code Segment"),
        }
    }
}

} // verus!
