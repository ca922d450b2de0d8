//! Operations ("tusks"): a named unit of work with an ordered mapping from
//! argument name to descriptor. The mapping is an `IndexMap`, whose order of
//! insertion gives the order of positional arguments and of the handler's
//! parameters.
use vstd::prelude::*;
use indexmap::IndexMap;
use crate::argument::Argument;
use crate::error::SchemaError;

verus! {

/// Declares indexmap's `IndexMap` so that an operation can hold one; what it
/// holds is seen only through `argument_entries` and the wrappers below.
#[verifier::external_type_specification]
#[verifier::external_body]
#[verifier::reject_recursive_types(K)]
#[verifier::reject_recursive_types(V)]
#[verifier::reject_recursive_types(S)]
pub struct ExIndexMap<K, V, S>(IndexMap<K, V, S>);

/// The entries of an operation's argument map, in the map's order.
pub uninterp spec fn argument_entries(m: IndexMap<String, Argument>) -> Seq<(Seq<char>, Argument)>;

/// The position of the first entry under `k`.
pub open spec fn key_index(s: Seq<(Seq<char>, Argument)>, k: Seq<char>) -> Option<int>
    decreases s.len(),
{
    if s.len() == 0 {
        None
    } else if s[0].0 == k {
        Some(0)
    } else {
        match key_index(s.drop_first(), k) {
            Some(j) => Some(j + 1),
            None => None,
        }
    }
}

pub proof fn lemma_key_index(s: Seq<(Seq<char>, Argument)>, k: Seq<char>)
    ensures
        key_index(s, k) matches Some(j) ==> 0 <= j < s.len() && s[j].0 == k && forall|i: int|
            0 <= i < j ==> s[i].0 != k,
        key_index(s, k) is None ==> forall|i: int| 0 <= i < s.len() ==> s[i].0 != k,
    decreases s.len(),
{
    if s.len() > 0 {
        lemma_key_index(s.drop_first(), k);
        assert forall|i: int| 1 <= i < s.len() implies s[i] == s.drop_first()[i - 1] by {}
    }
}

/// Relies on `IndexMap::new`: a new map is empty.
#[verifier::external_body]
fn argument_map_new() -> (r: IndexMap<String, Argument>)
    ensures
        argument_entries(r) == Seq::<(Seq<char>, Argument)>::empty(),
{
    IndexMap::new()
}

/// Relies on `IndexMap::len`: the number of entries.
#[verifier::external_body]
fn argument_map_len(m: &IndexMap<String, Argument>) -> (r: usize)
    ensures
        r == argument_entries(*m).len(),
{
    m.len()
}

/// Relies on `IndexMap::get_index`: the entry at a position below the length.
#[verifier::external_body]
fn argument_map_get_index(m: &IndexMap<String, Argument>, i: usize) -> (r: &Argument)
    requires
        i < argument_entries(*m).len(),
    ensures
        *r == argument_entries(*m)[i as int].1,
{
    m.get_index(i).unwrap().1
}

/// Relies on `IndexMap::get_index_of`: the position of the entry under a key.
#[verifier::external_body]
fn argument_map_index_of(m: &IndexMap<String, Argument>, k: &str) -> (r: Option<usize>)
    ensures
        r matches Some(i) ==> key_index(argument_entries(*m), k@) == Some(i as int),
        r is None ==> key_index(argument_entries(*m), k@) is None,
{
    m.get_index_of(k)
}

/// Relies on `IndexMap::insert`: an existing key keeps its place and gets the
/// new value, handing back the old one; a new key goes last.
#[verifier::external_body]
fn argument_map_insert(m: &mut IndexMap<String, Argument>, k: String, v: Argument) -> (r: Option<
    Argument,
>)
    ensures
        key_index(argument_entries(*old(m)), k@) matches Some(j) ==> argument_entries(*final(m))
            == argument_entries(*old(m)).update(j, (k@, v)) && r == Some(
            argument_entries(*old(m))[j].1,
        ),
        key_index(argument_entries(*old(m)), k@) is None ==> argument_entries(*final(m))
            == argument_entries(*old(m)).push((k@, v)) && r is None,
{
    m.insert(k, v)
}

/// What a handler hands back.
#[derive(Clone, Copy, Debug, PartialEq, Eq, Structural)]
pub enum ReturnKind {
    /// Nothing: success.
    Unit,
    /// An exit code.
    Code,
    /// An exit code or nothing.
    OptionalCode,
}

/// The result of one dispatch.
#[derive(Clone, Copy, Debug, PartialEq, Eq, Structural)]
pub enum ResultCode {
    Success,
    SuccessCode(u8),
    NothingMatched,
}

/// A handler that returns nothing succeeds; one that returns a code
/// succeeds with it; one that returns no code succeeds.
pub open spec fn result_code_spec(kind: ReturnKind, returned: Option<u8>) -> ResultCode {
    if kind == ReturnKind::Unit {
        ResultCode::Success
    } else {
        match returned {
            Some(c) => ResultCode::SuccessCode(c),
            None => ResultCode::Success,
        }
    }
}

/// The result code of a handler that returned `returned` (`None` where it
/// returned nothing).
pub fn result_code(kind: ReturnKind, returned: Option<u8>) -> (r: ResultCode)
    ensures
        r == result_code_spec(kind, returned),
{
    match kind {
        ReturnKind::Unit => ResultCode::Success,
        _ => match returned {
            Some(c) => ResultCode::SuccessCode(c),
            None => ResultCode::Success,
        },
    }
}

/// An operation of a scope.
pub struct Tusk {
    pub name: String,
    pub arguments: IndexMap<String, Argument>,
    /// The scope's fallback when no deeper alternative is selected.
    pub is_default: bool,
    /// Whether the handler takes the scope's parameters first.
    pub takes_parameters: bool,
    /// Whether the handler (a default) takes the unparsed trailing tokens.
    pub takes_external_args: bool,
    pub return_kind: ReturnKind,
}

/// All fields but `default` and `positional` agree.
pub open spec fn same_but_default_positional(a: Argument, b: Argument) -> bool {
    &&& a.name == b.name
    &&& a.type_ == b.type_
    &&& a.optional == b.optional
    &&& a.flag == b.flag
    &&& a.count == b.count
    &&& a.short == b.short
    &&& a.help == b.help
    &&& a.hidden == b.hidden
    &&& a.value_hint == b.value_hint
    &&& a.arg_enum == b.arg_enum
    &&& a.validator == b.validator
}

/// The value of the last entry under `name`.
pub open spec fn last_value_for(entries: Seq<(String, String)>, name: Seq<char>) -> Option<
    Seq<char>,
>
    decreases entries.len(),
{
    if entries.len() == 0 {
        None
    } else if entries.last().0@ == name {
        Some(entries.last().1@)
    } else {
        last_value_for(entries.drop_last(), name)
    }
}

/// `name` is the key of a non-optional argument.
pub open spec fn accepts_default(e: Seq<(Seq<char>, Argument)>, name: Seq<char>) -> bool {
    key_index(e, name) matches Some(j) && !e[j].1.optional
}

pub open spec fn names_contain(names: Seq<String>, name: Seq<char>) -> bool {
    exists|i: int| 0 <= i < names.len() && names[i]@ == name
}

impl Tusk {
    pub open spec fn entries(&self) -> Seq<(Seq<char>, Argument)> {
        argument_entries(self.arguments)
    }

    /// The argument descriptors in declaration order.
    pub open spec fn args(&self) -> Seq<Argument> {
        self.entries().map_values(|e: (Seq<char>, Argument)| e.1)
    }

    /// Keys are unique and each is its descriptor's name.
    pub open spec fn wf(&self) -> bool {
        &&& forall|i: int| 0 <= i < self.entries().len() ==> #[trigger] self.entries()[i].0
            == self.entries()[i].1.name@
        &&& forall|i: int, j: int|
            0 <= i < j < self.entries().len() ==> self.entries()[i].0 != self.entries()[j].0
    }

    /// An operation with no arguments, returning nothing, not the default.
    pub fn new(name: String) -> (r: Self)
        ensures
            r.name == name,
            r.entries().len() == 0,
            !r.is_default,
            !r.takes_parameters,
            !r.takes_external_args,
            r.return_kind == ReturnKind::Unit,
            r.wf(),
    {
        Tusk {
            name,
            arguments: argument_map_new(),
            is_default: false,
            takes_parameters: false,
            takes_external_args: false,
            return_kind: ReturnKind::Unit,
        }
    }

    pub fn argument_count(&self) -> (r: usize)
        ensures
            r == self.entries().len(),
    {
        argument_map_len(&self.arguments)
    }

    pub fn argument_at(&self, i: usize) -> (r: &Argument)
        requires
            i < self.entries().len(),
        ensures
            *r == self.entries()[i as int].1,
    {
        argument_map_get_index(&self.arguments, i)
    }

    /// Appends an argument; its name must be new.
    pub fn add_argument(&mut self, a: Argument) -> (r: Result<(), SchemaError>)
        requires
            old(self).wf(),
        ensures
            final(self).wf(),
            final(self).name == old(self).name,
            final(self).is_default == old(self).is_default,
            final(self).takes_parameters == old(self).takes_parameters,
            final(self).takes_external_args == old(self).takes_external_args,
            final(self).return_kind == old(self).return_kind,
            r is Ok <==> key_index(old(self).entries(), a.name@) is None,
            r is Ok ==> final(self).entries() == old(self).entries().push((a.name@, a)),
            r is Err ==> final(self).entries() == old(self).entries() && (r matches Err(
                SchemaError::DuplicateArgument { tusk, argument },
            ) && tusk == old(self).name && argument@ == a.name@),
    {
        proof {
            lemma_key_index(self.entries(), a.name@);
        }
        match argument_map_index_of(&self.arguments, a.name.as_str()) {
            Some(_) => Err(
                SchemaError::DuplicateArgument { tusk: self.name.clone(), argument: a.name },
            ),
            None => {
                let key = a.name.clone();
                let _ = argument_map_insert(&mut self.arguments, key, a);
                Ok(())
            },
        }
    }

    /// Sets the value of `default` or `positional` of the argument at `i`,
    /// keeping the rest.
    fn update_at(&mut self, i: usize, default: Option<String>, positional: bool)
        requires
            old(self).wf(),
            i < old(self).entries().len(),
        ensures
            final(self).wf(),
            final(self).name == old(self).name,
            final(self).entries().len() == old(self).entries().len(),
            forall|j: int|
                0 <= j < old(self).entries().len() && j != i ==> final(self).entries()[j]
                    == old(self).entries()[j],
            final(self).entries()[i as int].0 == old(self).entries()[i as int].0,
            same_but_default_positional(
                final(self).entries()[i as int].1,
                old(self).entries()[i as int].1,
            ),
            final(self).entries()[i as int].1.default == match default {
                Some(d) => Some(d),
                None => old(self).entries()[i as int].1.default,
            },
            final(self).entries()[i as int].1.positional == (positional
                || old(self).entries()[i as int].1.positional),
    {
        let ghost e0 = self.entries();
        let key = argument_map_get_index(&self.arguments, i).name.clone();
        proof {
            lemma_key_index(e0, key@);
            if key_index(e0, key@) != Some(i as int) {
                let j = key_index(e0, key@)->0;
                assert(e0[j].0 == e0[i as int].0);
            }
        }
        let placeholder = Argument::new(String::new(), String::new());
        let taken = argument_map_insert(&mut self.arguments, key.clone(), placeholder);
        let mut a = taken.unwrap();
        if let Some(d) = default {
            a.default = Some(d);
        }
        if positional {
            a.positional = true;
        }
        let ghost e1 = self.entries();
        proof {
            lemma_key_index(e1, key@);
            if key_index(e1, key@) != Some(i as int) {
                let j = key_index(e1, key@)->0;
                assert(e1[i as int].0 == key@);
            }
        }
        let _ = argument_map_insert(&mut self.arguments, key, a);
        proof {
            let e2 = self.entries();
            assert forall|x: int, y: int| 0 <= x < y < e2.len() implies e2[x].0 != e2[y].0 by {
                assert(e2[x].0 == e0[x].0 && e2[y].0 == e0[y].0);
            }
            assert forall|x: int| 0 <= x < e2.len() implies #[trigger] e2[x].0 == e2[x].1.name@ by {
                assert(e0[x].0 == e0[x].1.name@);
            }
        }
    }

    /// Applies `defaults` (argument name, default value) and then
    /// `positional` (argument names), in order.
    pub fn add_attribute_info(
        &mut self,
        defaults: &Vec<(String, String)>,
        positional: &Vec<String>,
    ) -> (r: Result<(), SchemaError>)
        requires
            old(self).wf(),
        ensures
            final(self).wf(),
            final(self).name == old(self).name,
            r is Ok <==> {
                &&& forall|d: int|
                    0 <= d < defaults@.len() ==> #[trigger] accepts_default(
                        old(self).entries(),
                        defaults@[d].0@,
                    )
                &&& forall|p: int|
                    0 <= p < positional@.len() ==> #[trigger] key_index(
                        old(self).entries(),
                        positional@[p]@,
                    ) is Some
            },
            r is Ok ==> {
                &&& final(self).entries().len() == old(self).entries().len()
                &&& forall|j: int|
                    0 <= j < old(self).entries().len() ==> {
                        let a = #[trigger] final(self).entries()[j];
                        let b = old(self).entries()[j];
                        &&& a.0 == b.0
                        &&& same_but_default_positional(a.1, b.1)
                        &&& a.1.default matches Some(v) ==> (last_value_for(defaults@, b.0) matches Some(w) && v@ == w) || (last_value_for(defaults@, b.0) is None && b.1.default == Some(v))
                        &&& a.1.default is None ==> b.1.default is None && last_value_for(defaults@, b.0) is None
                        &&& a.1.positional == (b.1.positional || names_contain(positional@, b.0))
                    }
            },
            r matches Err(e) ==> (e matches SchemaError::UnknownArgument { .. }
                || e matches SchemaError::DefaultForOptional { .. }),
    {
        let ghost e0 = self.entries();
        let mut k: usize = 0;
        while k < defaults.len()
            invariant
                self.wf(),
                self.name == old(self).name,
                self.entries().len() == e0.len(),
                e0 == old(self).entries(),
                old(self).wf(),
                k <= defaults@.len(),
                forall|d: int|
                    0 <= d < k ==> #[trigger] accepts_default(e0, defaults@[d].0@),
                forall|j: int|
                    0 <= j < e0.len() ==> {
                        let a = #[trigger] self.entries()[j];
                        let b = e0[j];
                        &&& a.0 == b.0
                        &&& same_but_default_positional(a.1, b.1)
                        &&& a.1.positional == b.1.positional
                        &&& a.1.default matches Some(v) ==> (last_value_for(defaults@.take(k as int), b.0) matches Some(w) && v@ == w) || (last_value_for(defaults@.take(k as int), b.0) is None && b.1.default == Some(v))
                        &&& a.1.default is None ==> b.1.default is None && last_value_for(defaults@.take(k as int), b.0) is None
                    },
            decreases defaults@.len() - k,
        {
            let ghost before = self.entries();
            let (name, value) = &defaults[k];
            proof {
                lemma_key_index(self.entries(), name@);
                lemma_key_index(e0, name@);
                assert forall|x: int| 0 <= x < e0.len() implies self.entries()[x].0 == e0[x].0 by {}
                assert(key_index(self.entries(), name@) == key_index(e0, name@)) by {
                    lemma_key_index_same_keys(self.entries(), e0, name@);
                }
            }
            match argument_map_index_of(&self.arguments, name.as_str()) {
                None => {
                    assert(!accepts_default(e0, defaults@[k as int].0@));
                    return Err(
                        SchemaError::UnknownArgument {
                            attribute: "defaults".to_string(),
                            argument: name.clone(),
                        },
                    );
                },
                Some(i) => {
                    if argument_at_is_optional(self, i) {
                        assert(!accepts_default(e0, defaults@[k as int].0@));
                        return Err(SchemaError::DefaultForOptional { argument: name.clone() });
                    }
                    self.update_at(i, Some(value.clone()), false);
                    proof {
                        let t = defaults@.take(k as int + 1);
                        assert(t.drop_last() =~= defaults@.take(k as int));
                        assert(t.last() == defaults@[k as int]);
                        assert forall|j: int| 0 <= j < e0.len() && j != i implies e0[j].0 != name@ by {}
                    }
                },
            }
            k = k + 1;
        }
        assert(defaults@.take(defaults@.len() as int) =~= defaults@);
        let mut p: usize = 0;
        while p < positional.len()
            invariant
                self.wf(),
                self.name == old(self).name,
                self.entries().len() == e0.len(),
                e0 == old(self).entries(),
                old(self).wf(),
                p <= positional@.len(),
                forall|d: int|
                    0 <= d < defaults@.len() ==> #[trigger] accepts_default(e0, defaults@[d].0@),
                forall|q: int| 0 <= q < p ==> #[trigger] key_index(e0, positional@[q]@) is Some,
                forall|j: int|
                    0 <= j < e0.len() ==> {
                        let a = #[trigger] self.entries()[j];
                        let b = e0[j];
                        &&& a.0 == b.0
                        &&& same_but_default_positional(a.1, b.1)
                        &&& a.1.positional == (b.1.positional || names_contain(positional@.take(p as int), b.0))
                        &&& a.1.default matches Some(v) ==> (last_value_for(defaults@, b.0) matches Some(w) && v@ == w) || (last_value_for(defaults@, b.0) is None && b.1.default == Some(v))
                        &&& a.1.default is None ==> b.1.default is None && last_value_for(defaults@, b.0) is None
                    },
            decreases positional@.len() - p,
        {
            let name = &positional[p];
            proof {
                lemma_key_index(e0, name@);
                assert(key_index(self.entries(), name@) == key_index(e0, name@)) by {
                    lemma_key_index_same_keys(self.entries(), e0, name@);
                }
            }
            match argument_map_index_of(&self.arguments, name.as_str()) {
                None => {
                    assert(key_index(e0, positional@[p as int]@) is None);
                    return Err(
                        SchemaError::UnknownArgument {
                            attribute: "positional".to_string(),
                            argument: name.clone(),
                        },
                    );
                },
                Some(i) => {
                    let ghost before = self.entries();
                    self.update_at(i, None, true);
                    proof {
                        let t = positional@.take(p as int + 1);
                        assert forall|j: int| 0 <= j < e0.len() implies names_contain(t, #[trigger] e0[j].0) == (names_contain(positional@.take(p as int), e0[j].0) || e0[j].0 == name@) by {
                            if names_contain(t, e0[j].0) && e0[j].0 != name@ {
                                let w = choose|w: int| 0 <= w < t.len() && t[w]@ == e0[j].0;
                                assert(positional@.take(p as int)[w] == t[w]);
                            }
                            if names_contain(positional@.take(p as int), e0[j].0) {
                                let w = choose|w: int| 0 <= w < p && positional@.take(p as int)[w]@ == e0[j].0;
                                assert(t[w] == positional@.take(p as int)[w]);
                            }
                            if e0[j].0 == name@ {
                                assert(t[p as int] == positional@[p as int]);
                            }
                        }
                        assert forall|j: int| 0 <= j < e0.len() && j != i implies e0[j].0 != name@ by {}
                    }
                },
            }
            p = p + 1;
        }
        assert(positional@.take(positional@.len() as int) =~= positional@);
        Ok(())
    }
}

fn argument_at_is_optional(t: &Tusk, i: usize) -> (r: bool)
    requires
        i < t.entries().len(),
    ensures
        r == t.entries()[i as int].1.optional,
{
    t.argument_at(i).optional
}

pub proof fn lemma_key_index_same_keys(
    s: Seq<(Seq<char>, Argument)>,
    t: Seq<(Seq<char>, Argument)>,
    k: Seq<char>,
)
    requires
        s.len() == t.len(),
        forall|x: int| 0 <= x < s.len() ==> s[x].0 == t[x].0,
    ensures
        key_index(s, k) == key_index(t, k),
    decreases s.len(),
{
    if s.len() > 0 {
        lemma_key_index_same_keys(s.drop_first(), t.drop_first(), k);
    }
}

} // verus!
