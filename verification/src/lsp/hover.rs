//! Hover: a short note on the position asked about.
use vstd::prelude::*;
use crate::text::{owned, push_decimal, decimal};
pub use super::{Position, Range, span, line_span};

verus! {

/// What the editor shows on hover, and the span it is about.
#[derive(Debug)]
pub struct Hover {
    pub contents: HoverContents,
    pub range: Option<Range>,
}

/// Text and its format (`markdown`).
#[derive(Debug)]
pub struct HoverContents {
    pub kind: String,
    pub value: String,
}

pub open spec fn hover_view(h: Hover) -> (Seq<char>, Seq<char>, Option<Range>) {
    (h.contents.kind@, h.contents.value@, h.range)
}

pub struct HoverProvider;

impl HoverProvider {
    pub fn new() -> (p: HoverProvider) {
        HoverProvider
    }

    /// For a request with a line and a column: a markdown note naming the
    /// line, about the one character there. Nothing when either is missing.
    pub fn get_hover(&self, line: Option<usize>, character: Option<usize>) -> (r: Option<Hover>)
        requires
            character matches Some(c) ==> c < usize::MAX,
        ensures
            match (line, character) {
                (Some(l), Some(c)) => r matches Some(h) && hover_view(h) == (
                    "markdown"@,
                    "**PySuals Component**\n\nDefined at line "@ + decimal(l as nat),
                    Some(line_span(l as int, c as int, c + 1)),
                ),
                _ => r is None,
            },
    {
        match (line, character) {
            (Some(l), Some(c)) => {
                let mut value = owned("**PySuals Component**\n\nDefined at line ");
                push_decimal(&mut value, l as u128);
                Some(
                    Hover {
                        contents: HoverContents { kind: owned("markdown"), value },
                        range: Some(span(l, c, c + 1)),
                    },
                )
            },
            _ => None,
        }
    }
}

} // verus!
