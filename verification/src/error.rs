//! A collector of error messages.
use vstd::prelude::*;

verus! {

/// Error messages, those about paths apart from the others.
pub struct Errors {
    path_errors: Vec<String>,
    errors: Vec<String>,
}

impl Errors {
    /// The messages about paths.
    pub closed spec fn path_messages(&self) -> Seq<String> {
        self.path_errors@
    }

    /// The other messages.
    pub closed spec fn messages(&self) -> Seq<String> {
        self.errors@
    }

    /// A collector that holds no message.
    pub fn new() -> (e: Errors)
        ensures
            e.path_messages() == Seq::<String>::empty(),
            e.messages() == Seq::<String>::empty(),
    {
        Errors { path_errors: Vec::new(), errors: Vec::new() }
    }

    /// Records nothing: the collector has no path message to take yet.
    pub fn add_path_error() {
    }
}

} // verus!
