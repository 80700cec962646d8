//! Syntax errors in the compact report layout.

use vstd::prelude::*;
use crate::diagnostics::{CodeInfo, error_display, reportable, spec_error_display};

verus! {

/// An error in the syntax, with the place it points at.
pub enum SyntaxError {
    /// A general syntax error.
    GEN { info: CodeInfo },
}

/// The error is a general syntax error over the code from `start` to `end`
/// with the given description, and no code, file or line attached.
pub open spec fn is_general(e: SyntaxError, start: int, end: int, description: Seq<char>) -> bool {
    e matches SyntaxError::GEN { info } && info.raw_code@ == Seq::<char>::empty() && info.pos
        == start && info.file_name@ == Seq::<char>::empty() && info.line_number == 0 && info.span
        == end - start + 1 && info.description@ == description
}

/// A span from `start` to `end` that a general error can cover.
pub open spec fn span_fits(start: int, end: int) -> bool {
    start <= end && end - start + 1 <= usize::MAX
}

impl SyntaxError {
    /// A general syntax error over the code from `start` to `end`, with no
    /// code, file or line attached.
    pub fn general(start: usize, end: usize, description: &str) -> (r: SyntaxError)
        requires
            start <= end,
            end - start + 1 <= usize::MAX,
        ensures
            is_general(r, start as int, end as int, description@),
    {
        let info = CodeInfo {
            raw_code: String::new(),
            pos: start,
            file_name: String::new(),
            line_number: 0,
            span: end - start + 1,
            description: description.to_owned(),
        };
        SyntaxError::GEN { info }
    }

    /// The report, titled "syntax" (see `spec_error_display`).
    pub fn to_display_string(&self) -> (r: String)
        requires
            self matches SyntaxError::GEN { info } && reportable(*info),
        ensures
            self matches SyntaxError::GEN { info } && r@ == spec_error_display(
                *info,
                "syntax"@,
                "General Syntax Error"@,
            ),
    {
        match self {
            SyntaxError::GEN { info } => error_display(info, "syntax", "General Syntax Error"),
        }
    }
}

} // verus!
