//! Argument descriptors: the shape and resolution rules of one parameter of
//! an operation.
use vstd::prelude::*;
use crate::error::SchemaError;

verus! {

/// How many values an argument collects; `None` leaves a side unbounded.
#[derive(Clone, Copy, Debug, PartialEq, Eq, Structural)]
pub struct ArgumentMultiplicity {
    pub min: Option<usize>,
    pub max: Option<usize>,
}

/// A completion hint for the value of an argument.
#[derive(Clone, Copy, Debug, PartialEq, Eq, Structural)]
pub enum ValueHint {
    AnyPath,
    FilePath,
    DirPath,
    ExecutablePath,
    CommandName,
    CommandString,
    Username,
    Hostname,
    Url,
    EmailAddress,
    Other,
}

/// The full description of one parameter of an operation (or one field of a
/// parameter scope).
pub struct Argument {
    /// Unique within its operation.
    pub name: String,
    /// The value type as written; it selects the conversion and is otherwise
    /// not interpreted.
    pub type_: String,
    pub default: Option<String>,
    pub optional: bool,
    /// A boolean switch: present or not, with no value.
    pub flag: bool,
    pub positional: bool,
    pub count: Option<ArgumentMultiplicity>,
    pub short: Option<char>,
    pub help: Option<String>,
    pub hidden: bool,
    pub value_hint: Option<ValueHint>,
    /// The values that are allowed, when restricted.
    pub arg_enum: Option<Vec<String>>,
    /// The name of an outside validation function.
    pub validator: Option<String>,
}

impl Argument {
    /// A flag carries no value shape, and a default excludes optionality.
    pub open spec fn is_consistent(&self) -> bool {
        &&& (self.default.is_some() ==> !self.optional)
        &&& (self.flag ==> self.count.is_none() && self.default.is_none() && !self.optional)
    }

    pub open spec fn flag_conflict(&self) -> bool {
        self.flag && (self.count.is_some() || self.default.is_some() || self.optional)
    }

    /// A required, single-valued, named argument with nothing else declared.
    pub fn new(name: String, type_: String) -> (r: Self)
        ensures
            r.name == name,
            r.type_ == type_,
            r.default.is_none(),
            !r.optional,
            !r.flag,
            !r.positional,
            r.count.is_none(),
            r.short.is_none(),
            r.help.is_none(),
            !r.hidden,
            r.value_hint.is_none(),
            r.arg_enum.is_none(),
            r.validator.is_none(),
            r.is_consistent(),
    {
        Argument {
            name,
            type_,
            default: None,
            optional: false,
            flag: false,
            positional: false,
            count: None,
            short: None,
            help: None,
            hidden: false,
            value_hint: None,
            arg_enum: None,
            validator: None,
        }
    }

    /// Rejects a descriptor whose value semantics would be ambiguous.
    pub fn check(&self) -> (r: Result<(), SchemaError>)
        ensures
            r is Ok <==> self.is_consistent(),
            self.flag_conflict() ==> (r matches Err(SchemaError::FlagWithValueShape { argument })
                && argument@ == self.name@),
            !self.flag_conflict() && !self.is_consistent() ==> (r matches Err(
                SchemaError::DefaultForOptional { argument },
            ) && argument@ == self.name@),
    {
        if self.flag && (self.count.is_some() || self.default.is_some() || self.optional) {
            return Err(SchemaError::FlagWithValueShape { argument: self.name.clone() });
        }
        if self.default.is_some() && self.optional {
            return Err(SchemaError::DefaultForOptional { argument: self.name.clone() });
        }
        Ok(())
    }
}

} // verus!
