//! Errors that stop the compilation of a scope tree.
use vstd::prelude::*;

verus! {

/// A fault in the declarative description of a scope tree. Each one names
/// the scope, operation or argument at fault.
pub enum SchemaError {
    /// An argument is both optional and has a default value.
    DefaultForOptional { argument: String },
    /// A flag also declares a default, optionality or a multiplicity.
    FlagWithValueShape { argument: String },
    /// `bool` stands inside `Option` or a repeated collection.
    BoolNotFlag { type_text: String },
    /// A receiver (`self`) stands among an operation's parameters.
    ReceiverParameter,
    /// A parameter is bound by a pattern rather than a plain name.
    ComplexPattern,
    /// A `defaults` or `positional` entry names no argument of the operation.
    UnknownArgument { attribute: String, argument: String },
    /// Two arguments of one operation share a name.
    DuplicateArgument { tusk: String, argument: String },
    /// A parameter scope declares the ancestor back-reference itself.
    SuperFieldNotAllowed { scope: String },
    /// A second operation of one scope is marked as the default.
    DuplicateDefault { scope: String, tusk: String },
    /// The default operation takes arguments that a default cannot be given.
    InvalidDefaultSignature { tusk: String },
    /// An operation returns something other than nothing, `u8` or `Option<u8>`.
    InvalidReturnType { type_text: String },
    /// A scope tree is neither the root nor declares the tree it belongs to.
    MissingParent { scope: String },
    /// A scope tree is the root and also declares a parent tree.
    RootWithParent { scope: String },
}

} // verus!
