//! Go to definition: the start of the line asked about.
use vstd::prelude::*;
use crate::text::owned;
pub use super::{Position, Range, Location, span, line_span, location_view};

verus! {

pub struct GotoProvider;

impl GotoProvider {
    pub fn new() -> (p: GotoProvider) {
        GotoProvider
    }

    /// For a request naming a document and a line: the first ten columns
    /// of that line in that document. Nothing when either is missing.
    pub fn get_definition(&self, uri: Option<&str>, line: Option<usize>) -> (r: Vec<Location>)
        ensures
            match (uri, line) {
                (Some(u), Some(l)) => r@.len() == 1 && location_view(r@[0]) == (u@, line_span(l as int, 0, 10)),
                _ => r@.len() == 0,
            },
    {
        match (uri, line) {
            (Some(u), Some(l)) => vec![Location { uri: owned(u), range: span(l, 0, 10) }],
            _ => Vec::new(),
        }
    }
}

} // verus!
