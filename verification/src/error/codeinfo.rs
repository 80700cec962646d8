//! What an error report needs to know about the code it points into.

use vstd::prelude::*;

verus! {

/// Everything needed to point an error at a place in the code.
pub struct CodeInfo {
    /// The text that goes next to the underlined section.
    pub description: String,
    /// The length of the underlined section.
    pub span: usize,
    /// Where the error starts, counted from the start of the code.
    pub cursor_pos: usize,
    /// The code.
    pub raw_code: String,
    /// The stream or file the code came from.
    pub file_name: String,
    /// The line the error is on.
    pub line_number: usize,
}

/// The information a source of code offers for error reports: its code,
/// where it stands, its file and line, how much to underline and what to
/// say. Each source gives its own; the sources here underline one
/// character and give no description.
pub trait CodeInformation {
    /// The code.
    spec fn spec_raw_code(&self) -> Seq<char>;

    /// Where the source stands in the code.
    spec fn spec_cursor_pos(&self) -> nat;

    /// The name of the file.
    spec fn spec_file_name(&self) -> Seq<char>;

    /// The current line.
    spec fn spec_line_number(&self) -> nat;

    fn raw_code(&self) -> (r: String)
        ensures
            r@ == self.spec_raw_code(),
    ;

    fn cursor_pos(&self) -> (r: usize)
        ensures
            r == self.spec_cursor_pos(),
    ;

    fn file_name(&self) -> (r: String)
        ensures
            r@ == self.spec_file_name(),
    ;

    fn line_number(&self) -> (r: usize)
        ensures
            r == self.spec_line_number(),
    ;

    /// The length of the section to underline.
    spec fn spec_item_span(&self) -> nat;

    /// The description to show.
    spec fn spec_description(&self) -> Seq<char>;

    /// The length of the section to underline (each source here gives one
    /// character).
    fn item_span(&self) -> (r: usize)
        ensures
            r == self.spec_item_span(),
    ;

    /// The description to show (each source here gives none).
    fn description(&self) -> (r: String)
        ensures
            r@ == self.spec_description(),
    ;

    /// Gathers the information into a `CodeInfo`.
    fn into_codeinfo(&self) -> (r: CodeInfo)
        ensures
            r.description@ == self.spec_description(),
            r.span == self.spec_item_span(),
            r.cursor_pos == self.spec_cursor_pos(),
            r.raw_code@ == self.spec_raw_code(),
            r.file_name@ == self.spec_file_name(),
            r.line_number == self.spec_line_number(),
    {
        CodeInfo {
            description: self.description(),
            span: self.item_span(),
            cursor_pos: self.cursor_pos(),
            raw_code: self.raw_code(),
            file_name: self.file_name(),
            line_number: self.line_number(),
        }
    }
}

} // verus!
