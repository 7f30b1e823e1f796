//! Editor support: diagnostics, completion, hover, go-to-definition,
//! renaming, formatting and a workspace index for the component language.
//! The protocol's transport (reading requests, writing JSON replies) is
//! left to the caller; these are the answers.
use vstd::prelude::*;

pub mod completion;
pub mod diagnostics;
pub mod formatting;
pub mod goto;
pub mod hover;
pub mod rename;
pub mod workspace;
pub mod server;

verus! {

/// A place in a document: line and column, both from zero.
#[derive(Debug, Clone, Copy, PartialEq, Eq, Structural)]
pub struct Position {
    pub line: usize,
    pub character: usize,
}

/// A span of a document.
#[derive(Debug, Clone, Copy, PartialEq, Eq, Structural)]
pub struct Range {
    pub start: Position,
    pub end: Position,
}

/// A span in the document at `uri`.
#[derive(Debug)]
pub struct Location {
    pub uri: String,
    pub range: Range,
}

/// Replace the text in `range` by `new_text`.
#[derive(Debug)]
pub struct TextEdit {
    pub range: Range,
    pub new_text: String,
}

/// The span on one line from column `from` to column `to`.
pub open spec fn line_span(line: int, from: int, to: int) -> Range {
    Range { start: Position { line: line as usize, character: from as usize }, end: Position { line: line as usize, character: to as usize } }
}

pub open spec fn location_view(l: Location) -> (Seq<char>, Range) {
    (l.uri@, l.range)
}

pub open spec fn edit_view(e: TextEdit) -> (Range, Seq<char>) {
    (e.range, e.new_text@)
}

/// The span on line `line` from column `from` to column `to`.
pub fn span(line: usize, from: usize, to: usize) -> (r: Range)
    ensures
        r == line_span(line as int, from as int, to as int),
{
    Range { start: Position { line, character: from }, end: Position { line, character: to } }
}

} // verus!
