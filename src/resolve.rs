//! The runtime argument resolver: from what the parser found for one
//! argument to the value handed to the handler, by the argument's rules.
use vstd::prelude::*;
use crate::argument::Argument;
use crate::text::{copy_strings, same_text};
use crate::tusk::Tusk;

verus! {

/// What the parser found for one argument: its name and the values given
/// (none for a flag that is present).
pub struct Supplied {
    pub name: String,
    pub values: Vec<String>,
}

/// A resolved argument value.
pub enum ResolvedValue {
    Flag(bool),
    Single(String),
    Many(Vec<String>),
    Absent,
}

pub enum ResolvedView {
    Flag(bool),
    Single(Seq<char>),
    Many(Seq<Seq<char>>),
    Absent,
}

/// Why an argument could not be resolved; each names the argument.
pub enum ResolveError {
    /// A required argument was not supplied.
    Missing { argument: String },
    /// The number of values lies outside the argument's multiplicity.
    Multiplicity { argument: String, found: usize },
    /// A value is not among the allowed ones.
    NotAllowed { argument: String, value: String, allowed: Vec<String> },
    /// The value could not be converted to the argument's type.
    Conversion { argument: String, message: String },
    /// The argument's validator refused the value.
    Validation { argument: String, message: String },
}

pub enum ResolveErrorView {
    Missing { argument: Seq<char> },
    Multiplicity { argument: Seq<char>, found: nat },
    NotAllowed { argument: Seq<char>, value: Seq<char>, allowed: Seq<Seq<char>> },
    Conversion { argument: Seq<char>, message: Seq<char> },
    Validation { argument: Seq<char>, message: Seq<char> },
}

pub open spec fn texts(s: Seq<String>) -> Seq<Seq<char>> {
    s.map_values(|x: String| x@)
}

impl View for ResolvedValue {
    type V = ResolvedView;

    open spec fn view(&self) -> ResolvedView {
        match self {
            ResolvedValue::Flag(b) => ResolvedView::Flag(*b),
            ResolvedValue::Single(s) => ResolvedView::Single(s@),
            ResolvedValue::Many(v) => ResolvedView::Many(texts(v@)),
            ResolvedValue::Absent => ResolvedView::Absent,
        }
    }
}

impl View for ResolveError {
    type V = ResolveErrorView;

    open spec fn view(&self) -> ResolveErrorView {
        match self {
            ResolveError::Missing { argument } => ResolveErrorView::Missing { argument: argument@ },
            ResolveError::Multiplicity { argument, found } => ResolveErrorView::Multiplicity {
                argument: argument@,
                found: *found as nat,
            },
            ResolveError::NotAllowed { argument, value, allowed } => ResolveErrorView::NotAllowed {
                argument: argument@,
                value: value@,
                allowed: texts(allowed@),
            },
            ResolveError::Conversion { argument, message } => ResolveErrorView::Conversion {
                argument: argument@,
                message: message@,
            },
            ResolveError::Validation { argument, message } => ResolveErrorView::Validation {
                argument: argument@,
                message: message@,
            },
        }
    }
}

/// The values supplied under `name`: those of the first entry that has it.
pub open spec fn lookup(inputs: Seq<Supplied>, name: Seq<char>) -> Option<Seq<Seq<char>>>
    decreases inputs.len(),
{
    if inputs.len() == 0 {
        None
    } else if inputs[0].name@ == name {
        Some(texts(inputs[0].values@))
    } else {
        lookup(inputs.drop_first(), name)
    }
}

/// Whether `n` values lie within the argument's multiplicity; without one,
/// exactly one value is taken.
pub open spec fn count_fits(a: Argument, n: nat) -> bool {
    match a.count {
        None => n == 1,
        Some(m) => (m.min matches Some(lo) ==> lo <= n) && (m.max matches Some(hi) ==> n <= hi),
    }
}

pub open spec fn text_in(s: Seq<Seq<char>>, x: Seq<char>) -> bool {
    exists|i: int| 0 <= i < s.len() && s[i] == x
}

/// The position of the first value that the argument's enumeration does not
/// allow.
pub open spec fn first_disallowed(allowed: Seq<Seq<char>>, vals: Seq<Seq<char>>) -> Option<int>
    decreases vals.len(),
{
    if vals.len() == 0 {
        None
    } else if !text_in(allowed, vals[0]) {
        Some(0)
    } else {
        match first_disallowed(allowed, vals.drop_first()) {
            Some(k) => Some(k + 1),
            None => None,
        }
    }
}

/// The resolution policy, in order of priority: a flag is its presence;
/// supplied values are checked against the multiplicity and the allowed
/// values; then the default; then absence for an optional argument; else
/// the argument is missing.
pub open spec fn resolve_spec(a: Argument, supplied: Option<Seq<Seq<char>>>) -> Result<
    ResolvedView,
    ResolveErrorView,
> {
    if a.flag {
        Ok(ResolvedView::Flag(supplied is Some))
    } else if supplied is Some {
        let vals = supplied->0;
        if !count_fits(a, vals.len()) {
            Err(ResolveErrorView::Multiplicity { argument: a.name@, found: vals.len() })
        } else if a.arg_enum is Some && first_disallowed(texts(a.arg_enum->0@), vals) is Some {
            Err(
                ResolveErrorView::NotAllowed {
                    argument: a.name@,
                    value: vals[first_disallowed(texts(a.arg_enum->0@), vals)->0],
                    allowed: texts(a.arg_enum->0@),
                },
            )
        } else if a.count is None {
            Ok(ResolvedView::Single(vals[0]))
        } else {
            Ok(ResolvedView::Many(vals))
        }
    } else if a.default is Some {
        if a.count is None {
            Ok(ResolvedView::Single(a.default->0@))
        } else {
            Ok(ResolvedView::Many(seq![a.default->0@]))
        }
    } else if a.optional {
        Ok(ResolvedView::Absent)
    } else {
        Err(ResolveErrorView::Missing { argument: a.name@ })
    }
}

/// Resolution of a list of arguments, stopping at the first error.
pub open spec fn resolve_seq(args: Seq<Argument>, inputs: Seq<Supplied>) -> Result<
    Seq<ResolvedView>,
    ResolveErrorView,
>
    decreases args.len(),
{
    if args.len() == 0 {
        Ok(Seq::empty())
    } else {
        match resolve_seq(args.drop_last(), inputs) {
            Err(e) => Err(e),
            Ok(vs) => match resolve_spec(args.last(), lookup(inputs, args.last().name@)) {
                Err(e) => Err(e),
                Ok(v) => Ok(vs.push(v)),
            },
        }
    }
}

pub open spec fn supplied_view(s: Option<&Vec<String>>) -> Option<Seq<Seq<char>>> {
    match s {
        Some(v) => Some(texts(v@)),
        None => None,
    }
}

pub open spec fn values_view(v: Seq<ResolvedValue>) -> Seq<ResolvedView> {
    v.map_values(|x: ResolvedValue| x@)
}

/// The values supplied under `name`, if any.
pub fn find_supplied<'a>(inputs: &'a Vec<Supplied>, name: &str) -> (r: Option<&'a Vec<String>>)
    ensures
        r matches Some(v) ==> lookup(inputs@, name@) == Some(texts(v@)),
        r is None ==> lookup(inputs@, name@) is None,
{
    let mut i: usize = 0;
    assert(inputs@.subrange(0, inputs@.len() as int) =~= inputs@);
    while i < inputs.len()
        invariant
            i <= inputs@.len(),
            lookup(inputs@, name@) == lookup(inputs@.subrange(i as int, inputs@.len() as int), name@),
        decreases inputs@.len() - i,
    {
        let ghost rest = inputs@.subrange(i as int, inputs@.len() as int);
        assert(rest[0] == inputs@[i as int]);
        assert(rest.drop_first() =~= inputs@.subrange(i as int + 1, inputs@.len() as int));
        if same_text(inputs[i].name.as_str(), name) {
            return Some(&inputs[i].values);
        }
        i = i + 1;
    }
    None
}

fn contains_text(allowed: &Vec<String>, x: &String) -> (r: bool)
    ensures
        r == text_in(texts(allowed@), x@),
{
    let mut i: usize = 0;
    while i < allowed.len()
        invariant
            i <= allowed@.len(),
            forall|j: int| 0 <= j < i ==> allowed@[j]@ != x@,
        decreases allowed@.len() - i,
    {
        if same_text(allowed[i].as_str(), x.as_str()) {
            assert(texts(allowed@)[i as int] == x@);
            return true;
        }
        i = i + 1;
    }
    false
}

fn find_disallowed(allowed: &Vec<String>, vals: &Vec<String>) -> (r: Option<usize>)
    ensures
        r matches Some(k) ==> first_disallowed(texts(allowed@), texts(vals@)) == Some(k as int)
            && k < vals@.len(),
        r is None ==> first_disallowed(texts(allowed@), texts(vals@)) is None,
{
    let ghost al = texts(allowed@);
    let mut i: usize = 0;
    assert(texts(vals@).subrange(0, vals@.len() as int) =~= texts(vals@));
    while i < vals.len()
        invariant
            i <= vals@.len(),
            al == texts(allowed@),
            first_disallowed(al, texts(vals@)) == match first_disallowed(al, texts(vals@).subrange(i as int, vals@.len() as int)) {
                Some(k) => Some(k + i),
                None => None,
            },
        decreases vals@.len() - i,
    {
        let ghost rest = texts(vals@).subrange(i as int, vals@.len() as int);
        assert(rest[0] == vals@[i as int]@);
        assert(rest.drop_first() =~= texts(vals@).subrange(i as int + 1, vals@.len() as int));
        if !contains_text(allowed, &vals[i]) {
            return Some(i);
        }
        i = i + 1;
    }
    assert(texts(vals@).subrange(i as int, vals@.len() as int) =~= Seq::<Seq<char>>::empty());
    None
}

fn fits(a: &Argument, n: usize) -> (r: bool)
    ensures
        r == count_fits(*a, n as nat),
{
    match a.count {
        None => n == 1,
        Some(m) => {
            let lo_ok = match m.min {
                Some(lo) => lo <= n,
                None => true,
            };
            let hi_ok = match m.max {
                Some(hi) => n <= hi,
                None => true,
            };
            lo_ok && hi_ok
        },
    }
}

impl Argument {
    /// Resolves the argument from the values the parser found for it.
    pub fn extract_from_matches(&self, supplied: Option<&Vec<String>>) -> (r: Result<
        ResolvedValue,
        ResolveError,
    >)
        ensures
            r matches Ok(v) ==> resolve_spec(*self, supplied_view(supplied)) == Ok::<ResolvedView, ResolveErrorView>(v@),
            r matches Err(e) ==> resolve_spec(*self, supplied_view(supplied)) == Err::<ResolvedView, ResolveErrorView>(e@),
    {
        if self.flag {
            return Ok(ResolvedValue::Flag(supplied.is_some()));
        }
        match supplied {
            Some(vals) => {
                if !fits(self, vals.len()) {
                    return Err(ResolveError::Multiplicity { argument: self.name.clone(), found: vals.len() });
                }
                if let Some(allowed) = &self.arg_enum {
                    if let Some(k) = find_disallowed(allowed, vals) {
                        let value = vals[k].clone();
                        let allowed_copy = copy_strings(allowed);
                        return Err(
                            ResolveError::NotAllowed {
                                argument: self.name.clone(),
                                value,
                                allowed: allowed_copy,
                            },
                        );
                    }
                }
                if self.count.is_none() {
                    Ok(ResolvedValue::Single(vals[0].clone()))
                } else {
                    let copy = copy_strings(vals);
                    proof {
                        assert(texts(copy@) =~= texts(vals@));
                    }
                    Ok(ResolvedValue::Many(copy))
                }
            },
            None => {
                if let Some(d) = &self.default {
                    if self.count.is_none() {
                        Ok(ResolvedValue::Single(d.clone()))
                    } else {
                        let mut v: Vec<String> = Vec::new();
                        v.push(d.clone());
                        proof {
                            assert(texts(v@) =~= seq![d@]);
                        }
                        Ok(ResolvedValue::Many(v))
                    }
                } else if self.optional {
                    Ok(ResolvedValue::Absent)
                } else {
                    Err(ResolveError::Missing { argument: self.name.clone() })
                }
            },
        }
    }
}

/// Completes a resolution with the outcome of converting the value to the
/// argument's type and, where the argument names a validator, of that
/// validator.
pub fn accept_converted(
    a: &Argument,
    conversion: Result<(), String>,
    validation: Result<(), String>,
) -> (r: Result<(), ResolveError>)
    ensures
        conversion is Err ==> (r matches Err(e) && e@ == (ResolveErrorView::Conversion {
            argument: a.name@,
            message: conversion->Err_0@,
        })),
        conversion is Ok && a.validator is Some && validation is Err ==> (r matches Err(e)
            && e@ == (ResolveErrorView::Validation { argument: a.name@, message: validation->Err_0@ })),
        conversion is Ok && (a.validator is None || validation is Ok) ==> r is Ok,
{
    match conversion {
        Err(m) => Err(ResolveError::Conversion { argument: a.name.clone(), message: m }),
        Ok(()) => {
            if a.validator.is_some() {
                match validation {
                    Err(m) => Err(ResolveError::Validation { argument: a.name.clone(), message: m }),
                    Ok(()) => Ok(()),
                }
            } else {
                Ok(())
            }
        },
    }
}

/// Resolves the arguments of an operation in declaration order, stopping
/// at the first that fails.
pub fn resolve_tusk_arguments(t: &Tusk, inputs: &Vec<Supplied>) -> (r: Result<
    Vec<ResolvedValue>,
    ResolveError,
>)
    ensures
        r matches Ok(v) ==> resolve_seq(t.args(), inputs@) == Ok::<
            Seq<ResolvedView>,
            ResolveErrorView,
        >(values_view(v@)),
        r matches Err(e) ==> resolve_seq(t.args(), inputs@) == Err::<
            Seq<ResolvedView>,
            ResolveErrorView,
        >(e@),
{
    let n = t.argument_count();
    let ghost args = t.args();
    let mut out: Vec<ResolvedValue> = Vec::new();
    let mut j: usize = 0;
    assert(args.take(0) =~= Seq::<Argument>::empty());
    assert(values_view(out@) =~= Seq::<ResolvedView>::empty());
    while j < n
        invariant
            n == t.entries().len(),
            args == t.args(),
            args.len() == n,
            j <= n,
            resolve_seq(args.take(j as int), inputs@) == Ok::<Seq<ResolvedView>, ResolveErrorView>(
                values_view(out@),
            ),
        decreases n - j,
    {
        let a = t.argument_at(j);
        assert(*a == args[j as int]);
        let supplied = find_supplied(inputs, a.name.as_str());
        proof {
            assert(args.take(j as int + 1).drop_last() =~= args.take(j as int));
            assert(args.take(j as int + 1).last() == args[j as int]);
        }
        match a.extract_from_matches(supplied) {
            Ok(v) => {
                let ghost before = out@;
                out.push(v);
                proof {
                    assert(values_view(out@) =~= values_view(before).push(v@));
                }
            },
            Err(e) => {
                proof {
                    lemma_resolve_seq_error_persists(args, inputs@, j as int + 1);
                }
                return Err(e);
            },
        }
        j = j + 1;
    }
    assert(args.take(n as int) =~= args);
    Ok(out)
}

/// An error in a prefix is the error of the whole list.
pub proof fn lemma_resolve_seq_error_persists(args: Seq<Argument>, inputs: Seq<Supplied>, k: int)
    requires
        0 <= k <= args.len(),
        resolve_seq(args.take(k), inputs) is Err,
    ensures
        resolve_seq(args, inputs) == resolve_seq(args.take(k), inputs),
    decreases args.len() - k,
{
    if k < args.len() {
        assert(args.take(k + 1).drop_last() =~= args.take(k));
        lemma_resolve_seq_error_persists(args, inputs, k + 1);
    } else {
        assert(args.take(k) =~= args);
    }
}

} // verus!
