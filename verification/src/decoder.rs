//! The state of one decoding session.

use vstd::prelude::*;

verus! {

/// What the chunks of one image have established so far.
///
/// A context is made afresh for each image and handed to the parsers of the
/// chunk kinds whose meaning depends on earlier chunks.
#[derive(Clone, Copy, Debug, PartialEq, Eq, Structural)]
pub struct ParseContext {
    /// True once a palette chunk has been parsed.
    pub palette: bool,
}

impl ParseContext {
    /// The context at the start of an image: no palette seen.
    pub fn new() -> (ctx: ParseContext)
        ensures
            !ctx.palette,
    {
        ParseContext { palette: false }
    }

    /// Whether a palette chunk has been parsed.
    pub fn has_palette(&self) -> (seen: bool)
        ensures
            seen == self.palette,
    {
        self.palette
    }

    /// Records that a palette chunk has been parsed.
    pub fn set_palette(&mut self)
        ensures
            final(self).palette,
    {
        self.palette = true;
    }
}

} // verus!
