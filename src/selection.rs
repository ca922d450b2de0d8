//! A parsed selection: the path that the parser took through a schema's
//! alternatives, with the values it found at each level.
use vstd::prelude::*;
use crate::resolve::Supplied;

verus! {

/// One step below a scope.
pub enum Selection {
    /// An operation of the scope, with the values found for its arguments.
    Tusk { name: String, inputs: Vec<Supplied> },
    /// A child scope, with the values found for its parameter fields, and
    /// what was selected below it, if anything.
    Scope { name: String, inputs: Vec<Supplied>, sub: Option<Box<Selection>> },
    /// An external link, with the tokens left for the linked tree.
    Link { alias: String, rest: Vec<String> },
}

} // verus!
