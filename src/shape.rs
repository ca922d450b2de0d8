//! Argument shapes read off a parameter's declared type: `Option<T>` makes an
//! argument optional, `Vec<T>` and the `Repeat` family give it a
//! multiplicity, and a bare `bool` makes it a flag.
use vstd::prelude::*;
use crate::argument::{Argument, ArgumentMultiplicity};
use crate::error::SchemaError;
use crate::text::same_text;

verus! {

/// A generic argument of a type as written.
pub enum TypeArg {
    Type(TypeExpr),
    /// A const argument; `None` where it is not an integer literal.
    Const(Option<usize>),
    Other,
}

/// A type as written in a parameter declaration.
pub struct TypeExpr {
    /// The type as source text.
    pub text: String,
    /// The identifier of the last path segment, for a path type.
    pub ident: Option<String>,
    /// Whether the path has exactly one segment.
    pub single_segment: bool,
    /// The angle-bracketed arguments of the last segment, if it has any.
    pub args: Option<Vec<TypeArg>>,
    /// For a reference type `&T`, the type `T`.
    pub referent: Option<Box<TypeExpr>>,
}

/// One parameter of an operation's declaration.
pub enum FnParam {
    /// `self`, `&self` or `&mut self`.
    Receiver,
    /// `name: Type`; `name` is `None` where the binding is a pattern.
    Typed { name: Option<String>, ty: TypeExpr },
}

/// What a type says of an argument's shape.
pub struct ArgShape {
    pub optional: bool,
    pub count: Option<ArgumentMultiplicity>,
    pub flag: bool,
    pub type_: String,
}

pub open spec fn ident_is(t: TypeExpr, name: Seq<char>) -> bool {
    t.ident is Some && t.ident->0@ == name
}

/// The first generic argument, where it is a type.
pub open spec fn first_type_arg(t: TypeExpr) -> Option<TypeExpr> {
    if t.args is Some && t.args->0@.len() > 0 && t.args->0@[0] is Type {
        Some(t.args->0@[0]->Type_0)
    } else {
        None
    }
}

/// The integer literal at position `i` of the generic arguments, if any.
pub open spec fn const_arg(t: TypeExpr, i: int) -> Option<usize> {
    if t.args is Some && i < t.args->0@.len() && t.args->0@[i] is Const {
        t.args->0@[i]->Const_0
    } else {
        None
    }
}

/// `T` of `Option<T>`.
pub open spec fn option_inner(t: TypeExpr) -> Option<TypeExpr> {
    if ident_is(t, "Option"@) {
        first_type_arg(t)
    } else {
        None
    }
}

/// The bounds that a collection type gives, without looking at its element.
pub open spec fn collection_bounds(t: TypeExpr) -> Option<ArgumentMultiplicity> {
    if ident_is(t, "Vec"@) {
        Some(ArgumentMultiplicity { min: None, max: None })
    } else if ident_is(t, "Repeat"@) {
        Some(ArgumentMultiplicity { min: const_arg(t, 1), max: const_arg(t, 1) })
    } else if ident_is(t, "RepeatMin"@) {
        Some(ArgumentMultiplicity { min: const_arg(t, 1), max: None })
    } else if ident_is(t, "RepeatMax"@) {
        Some(ArgumentMultiplicity { min: None, max: const_arg(t, 1) })
    } else if ident_is(t, "RepeatMinMax"@) {
        Some(ArgumentMultiplicity { min: const_arg(t, 1), max: const_arg(t, 2) })
    } else {
        None
    }
}

/// Element type and multiplicity of `Vec<T>` or a `Repeat` type.
pub open spec fn collection_inner(t: TypeExpr) -> Option<(TypeExpr, ArgumentMultiplicity)> {
    if collection_bounds(t) is Some && first_type_arg(t) is Some {
        Some((first_type_arg(t)->0, collection_bounds(t)->0))
    } else {
        None
    }
}

pub open spec fn is_bool(t: TypeExpr) -> bool {
    t.single_segment && ident_is(t, "bool"@)
}

/// The type once `Option` is unwrapped.
pub open spec fn after_option(t: TypeExpr) -> TypeExpr {
    match option_inner(t) {
        Some(inner) => inner,
        None => t,
    }
}

/// The type once `Option` and then a collection are unwrapped.
pub open spec fn element_type(t: TypeExpr) -> TypeExpr {
    match collection_inner(after_option(t)) {
        Some(p) => p.0,
        None => after_option(t),
    }
}

pub open spec fn shape_optional(t: TypeExpr) -> bool {
    option_inner(t) is Some
}

pub open spec fn shape_count(t: TypeExpr) -> Option<ArgumentMultiplicity> {
    match collection_inner(after_option(t)) {
        Some(p) => Some(p.1),
        None => None,
    }
}

/// `bool` may only stand alone.
pub open spec fn shape_rejected(t: TypeExpr) -> bool {
    is_bool(element_type(t)) && (shape_optional(t) || shape_count(t) is Some)
}

fn ident_eq(t: &TypeExpr, name: &str) -> (r: bool)
    ensures
        r == ident_is(*t, name@),
{
    match &t.ident {
        Some(id) => same_text(id.as_str(), name),
        None => false,
    }
}

fn first_type_arg_of(t: &TypeExpr) -> (r: Option<&TypeExpr>)
    ensures
        r matches Some(x) ==> first_type_arg(*t) == Some(*x),
        r is None ==> first_type_arg(*t) is None,
{
    match &t.args {
        Some(args) => {
            if args.len() > 0 {
                match &args[0] {
                    TypeArg::Type(inner) => Some(inner),
                    _ => None,
                }
            } else {
                None
            }
        },
        None => None,
    }
}

fn const_arg_of(t: &TypeExpr, i: usize) -> (r: Option<usize>)
    ensures
        r == const_arg(*t, i as int),
{
    match &t.args {
        Some(args) => {
            if i < args.len() {
                match &args[i] {
                    TypeArg::Const(c) => *c,
                    _ => None,
                }
            } else {
                None
            }
        },
        None => None,
    }
}

/// Unwraps `Option<T>`.
pub fn extract_option_inner(t: &TypeExpr) -> (r: Option<&TypeExpr>)
    ensures
        r matches Some(x) ==> option_inner(*t) == Some(*x),
        r is None ==> option_inner(*t) is None,
{
    if ident_eq(t, "Option") {
        first_type_arg_of(t)
    } else {
        None
    }
}

fn collection_bounds_of(t: &TypeExpr) -> (r: Option<ArgumentMultiplicity>)
    ensures
        r == collection_bounds(*t),
{
    if ident_eq(t, "Vec") {
        Some(ArgumentMultiplicity { min: None, max: None })
    } else if ident_eq(t, "Repeat") {
        let n = const_arg_of(t, 1);
        Some(ArgumentMultiplicity { min: n, max: n })
    } else if ident_eq(t, "RepeatMin") {
        Some(ArgumentMultiplicity { min: const_arg_of(t, 1), max: None })
    } else if ident_eq(t, "RepeatMax") {
        Some(ArgumentMultiplicity { min: None, max: const_arg_of(t, 1) })
    } else if ident_eq(t, "RepeatMinMax") {
        Some(ArgumentMultiplicity { min: const_arg_of(t, 1), max: const_arg_of(t, 2) })
    } else {
        None
    }
}

/// Unwraps `Vec<T>` and the `Repeat` types, with the multiplicity they give.
pub fn extract_collection_inner(t: &TypeExpr) -> (r: Option<(&TypeExpr, ArgumentMultiplicity)>)
    ensures
        r matches Some(p) ==> collection_inner(*t) == Some((*p.0, p.1)),
        r is None ==> collection_inner(*t) is None,
{
    match collection_bounds_of(t) {
        Some(m) => match first_type_arg_of(t) {
            Some(inner) => Some((inner, m)),
            None => None,
        },
        None => None,
    }
}

/// Whether the type is a plain `bool`.
pub fn is_bool_type(t: &TypeExpr) -> (r: bool)
    ensures
        r == is_bool(*t),
{
    t.single_segment && ident_eq(t, "bool")
}

/// Reads an argument's shape off its type: optional, multiplicity, flag,
/// and the element type's text.
pub fn parse_type(ty: &TypeExpr) -> (r: Result<ArgShape, SchemaError>)
    ensures
        r is Err <==> shape_rejected(*ty),
        r matches Err(e) ==> (e matches SchemaError::BoolNotFlag { type_text } && type_text@
            == ty.text@),
        r matches Ok(s) ==> {
            &&& s.optional == shape_optional(*ty)
            &&& s.count == shape_count(*ty)
            &&& s.flag == is_bool(element_type(*ty))
            &&& s.type_@ == if s.flag {
                "bool"@
            } else {
                element_type(*ty).text@
            }
        },
{
    let mut current = ty;
    let mut optional = false;
    if let Some(inner) = extract_option_inner(current) {
        optional = true;
        current = inner;
    }
    assert(*current == after_option(*ty));
    let mut count: Option<ArgumentMultiplicity> = None;
    if let Some((inner, m)) = extract_collection_inner(current) {
        count = Some(m);
        current = inner;
    }
    assert(*current == element_type(*ty));
    if is_bool_type(current) {
        if optional || count.is_some() {
            return Err(SchemaError::BoolNotFlag { type_text: ty.text.clone() });
        }
        let type_ = "bool".to_string();
        Ok(ArgShape { optional, count, flag: true, type_ })
    } else {
        Ok(ArgShape { optional, count, flag: false, type_: current.text.clone() })
    }
}

/// The argument that a parameter declaration describes, before `defaults`
/// and `positional` are applied.
pub open spec fn argument_from_param(name: Seq<char>, ty: TypeExpr, a: Argument) -> bool {
    &&& a.name@ == name
    &&& a.optional == shape_optional(ty)
    &&& a.count == shape_count(ty)
    &&& a.flag == is_bool(element_type(ty))
    &&& a.type_@ == if a.flag {
        "bool"@
    } else {
        element_type(ty).text@
    }
    &&& a.default.is_none() && !a.positional && a.short.is_none() && a.help.is_none()
    &&& !a.hidden && a.value_hint.is_none() && a.arg_enum.is_none() && a.validator.is_none()
}

impl Argument {
    /// Builds the descriptor of one operation parameter.
    pub fn from_fn_arg(param: &FnParam) -> (r: Result<Argument, SchemaError>)
        ensures
            *param is Receiver ==> (r matches Err(SchemaError::ReceiverParameter)),
            *param matches FnParam::Typed { name, ty } ==> {
                &&& name is None ==> (r matches Err(SchemaError::ComplexPattern))
                &&& name is Some && shape_rejected(ty) ==> (r matches Err(
                    SchemaError::BoolNotFlag { .. },
                ))
                &&& name is Some && !shape_rejected(ty) ==> (r matches Ok(a)
                    && argument_from_param(name->0@, ty, a) && a.is_consistent())
            },
    {
        match param {
            FnParam::Receiver => Err(SchemaError::ReceiverParameter),
            FnParam::Typed { name, ty } => match name {
                None => Err(SchemaError::ComplexPattern),
                Some(n) => {
                    let shape = parse_type(ty)?;
                    let mut a = Argument::new(n.clone(), shape.type_);
                    a.optional = shape.optional;
                    a.count = shape.count;
                    a.flag = shape.flag;
                    Ok(a)
                },
            },
        }
    }
}

} // verus!
