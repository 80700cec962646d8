//! The errors the parser reports.

use vstd::prelude::*;
use crate::error::codeinfo::{CodeInfo, CodeInformation};
use crate::parser::Parser;
use crate::error::{display_error_general, display_error, displayable, spec_display_error};

verus! {

/// An error found while parsing.
pub enum ParserError {
    /// A general error, with its description.
    GEN(String),
    /// A run of code that cannot be reduced to a single statement.
    NOSTATEMENT(CodeInfo),
    /// Something that was not expected.
    EXPECT(CodeInfo),
    /// Something whose end cannot be found.
    UNTERMINATED(CodeInfo),
}

impl ParserError {
    /// A general error with the given description.
    pub fn general(description: &str) -> (r: ParserError)
        ensures
            r matches ParserError::GEN(d) && d@ == description@,
    {
        ParserError::GEN(description.to_owned())
    }

    /// A run of code, on line `line` from `start` to `end`, that cannot be
    /// reduced to a single statement.
    pub fn not_a_statement(parser: &Parser, line: usize, start: usize, end: usize) -> (r:
        ParserError)
        requires
            start <= end,
        ensures
            r matches ParserError::NOSTATEMENT(info) && info.description@
                == "can't reduce to a single statement"@ && info.span == end - start
                && info.cursor_pos == start && info.line_number == line && info.raw_code@
                == parser.raw_code@ && info.file_name@ == parser.file_name@,
    {
        let mut code_info = CodeInformation::into_codeinfo(parser);
        code_info.description = "can't reduce to a single statement".to_owned();
        code_info.span = end - start;
        code_info.cursor_pos = start;
        code_info.line_number = line;
        ParserError::NOSTATEMENT(code_info)
    }

    /// Something unexpected on line `line` from `start` to `end`. (It is
    /// reported as a run that is not a statement.)
    pub fn unexpected(parser: &Parser, line: usize, start: usize, end: usize, description: &str) -> (r:
        ParserError)
        requires
            start <= end,
        ensures
            r matches ParserError::NOSTATEMENT(info) && info.description@ == description@
                && info.span == end - start && info.cursor_pos == start && info.line_number == line
                && info.raw_code@ == parser.raw_code@ && info.file_name@ == parser.file_name@,
    {
        let mut code_info = CodeInformation::into_codeinfo(parser);
        code_info.description = description.to_owned();
        code_info.span = end - start;
        code_info.cursor_pos = start;
        code_info.line_number = line;
        ParserError::NOSTATEMENT(code_info)
    }

    /// Something whose end is missing, on line `line` from `start` to `end`.
    /// (It is reported as a run that is not a statement.)
    pub fn unterminated(parser: &Parser, line: usize, start: usize, end: usize, description: &str) -> (r:
        ParserError)
        requires
            start <= end,
        ensures
            r matches ParserError::NOSTATEMENT(info) && info.description@ == description@
                && info.span == end - start && info.cursor_pos == start && info.line_number == line
                && info.raw_code@ == parser.raw_code@ && info.file_name@ == parser.file_name@,
    {
        let mut code_info = CodeInformation::into_codeinfo(parser);
        code_info.description = description.to_owned();
        code_info.span = end - start;
        code_info.cursor_pos = start;
        code_info.line_number = line;
        ParserError::NOSTATEMENT(code_info)
    }

    /// Whether the report can be shown (see `displayable`).
    pub open spec fn can_display(&self) -> bool {
        match self {
            ParserError::GEN(_) => true,
            ParserError::NOSTATEMENT(info) | ParserError::EXPECT(info)
            | ParserError::UNTERMINATED(info) => displayable(*info),
        }
    }

    /// The report: a general message, or the code with the place marked,
    /// titled by the kind of error.
    pub fn to_display_string(&self) -> (r: String)
        requires
            self.can_display(),
        ensures
            r@ == match self {
                ParserError::GEN(d) => "ERROR : "@ + d@,
                ParserError::NOSTATEMENT(info) => spec_display_error("Not a Statement"@, *info),
                ParserError::EXPECT(info) => spec_display_error("Unexpected Element"@, *info),
                ParserError::UNTERMINATED(info) => spec_display_error("Unterminated Phrase"@, *info),
            },
    {
        match self {
            ParserError::GEN(desc) => display_error_general(desc.as_str()),
            ParserError::NOSTATEMENT(info) => display_error("Not a Statement", info),
            ParserError::EXPECT(info) => display_error("Unexpected Element", info),
            ParserError::UNTERMINATED(info) => display_error("Unterminated Phrase", info),
        }
    }
}

} // verus!
