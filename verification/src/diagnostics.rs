//! The diagnostics sink the compilation passes append to.  The tree passes in
//! this crate accept a sink for forward compatibility but currently emit
//! nothing; their contracts say so explicitly.

use crate::object_tree::SourceLocation;
use vstd::prelude::*;

verus! {

/// One diagnostic: a message tied to the source location it is about.
#[derive(Clone, PartialEq, Eq, Debug)]
pub struct Diagnostic {
    pub message: String,
    pub location: SourceLocation,
}

/// An append-only collection of diagnostics.
#[derive(Clone, PartialEq, Eq, Debug)]
pub struct Diagnostics {
    pub diagnostics: Vec<Diagnostic>,
}

impl Diagnostics {
    /// An empty sink.
    pub fn new() -> (r: Diagnostics)
        ensures
            r.diagnostics@.len() == 0,
    {
        Diagnostics { diagnostics: Vec::new() }
    }

    /// Appends one diagnostic; everything already collected stays.
    pub fn push(&mut self, message: String, location: SourceLocation)
        ensures
            final(self).diagnostics@ == old(self).diagnostics@.push(
                (Diagnostic { message, location }),
            ),
    {
        self.diagnostics.push(Diagnostic { message, location });
    }

    /// How many diagnostics have been collected.
    pub fn len(&self) -> (r: usize)
        ensures
            r == self.diagnostics@.len(),
    {
        self.diagnostics.len()
    }
}

} // verus!
