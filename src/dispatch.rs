//! The dispatcher: walks a parsed selection down the scope tree,
//! materializes each scope's parameters on the way (a child's back-reference
//! is the position of its parent's value in the same dispatch), and ends at
//! one operation with its resolved arguments, at the scope's default
//! operation, at an external link, or at nothing.
use vstd::prelude::*;
use crate::argument::Argument;
use crate::node::{declared_fields, ParameterField, TusksNode};
use crate::resolve::{
    find_supplied, lookup, resolve_seq, resolve_spec, resolve_tusk_arguments,
    texts, values_view, ResolveError, ResolveErrorView, ResolvedValue, ResolvedView, Supplied,
};
use crate::schema::{
    accepts, all_schema_matches, command_names, first_name_index, lemma_all_schema_matches_index,
    lemma_first_name_index, schema_matches, tusk_names, tusk_schema_matches, value_args,
    CommandSchema,
};
use crate::selection::Selection;
use crate::text::{copy_strings, same_text};
use crate::tusk::{result_code, result_code_spec, ResultCode, ReturnKind, Tusk};

verus! {

/// The materialized parameters of one scope on the dispatch path.
pub struct ScopeValue {
    pub scope: String,
    /// The names of the value fields, in order.
    pub names: Vec<String>,
    /// Their resolved values, in the same order.
    pub values: Vec<ResolvedValue>,
    /// The position of the parent scope's value in the same dispatch; `None`
    /// at the root. The child refers to that one value and holds no copy.
    pub parent: Option<usize>,
}

/// Where a dispatch ends.
pub enum Target {
    /// An operation, with its arguments resolved in declaration order.
    Tusk {
        name: String,
        takes_parameters: bool,
        args: Vec<ResolvedValue>,
        return_kind: ReturnKind,
    },
    /// The scope's default operation, as nothing deeper was selected.
    Default { name: String, takes_parameters: bool, takes_external_args: bool, return_kind: ReturnKind },
    /// An external link: the linked tree's dispatcher gets the remaining
    /// tokens and the current scope's parameters as its ancestor.
    Forward { alias: String, rest: Vec<String> },
    /// A scope was selected, nothing below it, and it has no default.
    NothingMatched,
}

/// The outcome of a dispatch.
pub struct Dispatch {
    /// The child scopes taken from the root.
    pub path: Vec<String>,
    /// The materialized scopes from the root down; the handler receives the
    /// last one.
    pub scopes: Vec<ScopeValue>,
    pub target: Target,
}

/// Why a selection could not be dispatched.
pub enum DispatchError {
    /// No alternative of that name exists at its level.
    UnknownCommand { name: String },
    Resolve(ResolveError),
}

pub struct ScopeValueView {
    pub scope: Seq<char>,
    pub names: Seq<Seq<char>>,
    pub values: Seq<ResolvedView>,
    pub parent: Option<int>,
}

pub enum TargetView {
    Tusk { name: Seq<char>, takes_parameters: bool, args: Seq<ResolvedView>, return_kind: ReturnKind },
    Default {
        name: Seq<char>,
        takes_parameters: bool,
        takes_external_args: bool,
        return_kind: ReturnKind,
    },
    Forward { alias: Seq<char>, rest: Seq<Seq<char>> },
    NothingMatched,
}

pub enum DispatchErrorView {
    UnknownCommand { name: Seq<char> },
    Resolve(ResolveErrorView),
}

impl View for ScopeValue {
    type V = ScopeValueView;

    open spec fn view(&self) -> ScopeValueView {
        ScopeValueView {
            scope: self.scope@,
            names: texts(self.names@),
            values: values_view(self.values@),
            parent: match self.parent {
                Some(p) => Some(p as int),
                None => None,
            },
        }
    }
}

impl View for Target {
    type V = TargetView;

    open spec fn view(&self) -> TargetView {
        match self {
            Target::Tusk { name, takes_parameters, args, return_kind } => TargetView::Tusk {
                name: name@,
                takes_parameters: *takes_parameters,
                args: values_view(args@),
                return_kind: *return_kind,
            },
            Target::Default { name, takes_parameters, takes_external_args, return_kind } =>
                TargetView::Default {
                name: name@,
                takes_parameters: *takes_parameters,
                takes_external_args: *takes_external_args,
                return_kind: *return_kind,
            },
            Target::Forward { alias, rest } => TargetView::Forward {
                alias: alias@,
                rest: texts(rest@),
            },
            Target::NothingMatched => TargetView::NothingMatched,
        }
    }
}

impl View for DispatchError {
    type V = DispatchErrorView;

    open spec fn view(&self) -> DispatchErrorView {
        match self {
            DispatchError::UnknownCommand { name } => DispatchErrorView::UnknownCommand {
                name: name@,
            },
            DispatchError::Resolve(e) => DispatchErrorView::Resolve(e@),
        }
    }
}

pub open spec fn scopes_view(s: Seq<ScopeValue>) -> Seq<ScopeValueView> {
    s.map_values(|v: ScopeValue| v@)
}

pub open spec fn arg_names(args: Seq<Argument>) -> Seq<Seq<char>> {
    args.map_values(|a: Argument| a.name@)
}

pub open spec fn node_tusk_names(ts: Seq<Tusk>) -> Seq<Seq<char>> {
    ts.map_values(|t: Tusk| t.name@)
}

pub open spec fn node_names(ns: Seq<TusksNode>) -> Seq<Seq<char>> {
    ns.map_values(|n: TusksNode| n.name@)
}

/// The position of the first operation marked as default.
pub open spec fn first_default(ts: Seq<Tusk>) -> Option<int>
    decreases ts.len(),
{
    if ts.len() == 0 {
        None
    } else if ts[0].is_default {
        Some(0)
    } else {
        match first_default(ts.drop_first()) {
            Some(k) => Some(k + 1),
            None => None,
        }
    }
}

pub open spec fn has_link(n: TusksNode, alias: Seq<char>) -> bool {
    exists|l: int| 0 <= l < n.links@.len() && (#[trigger] n.links@[l]).name@ == alias
}

/// The materialized value of scope `n` at depth `depth`.
pub open spec fn scope_here(n: TusksNode, vals: Seq<ResolvedView>, depth: nat) -> ScopeValueView {
    ScopeValueView {
        scope: n.name@,
        names: arg_names(value_args(declared_fields(n))),
        values: vals,
        parent: if depth == 0 {
            None
        } else {
            Some(depth - 1)
        },
    }
}

pub type DispatchResult = Result<
    (Seq<Seq<char>>, Seq<ScopeValueView>, TargetView),
    DispatchErrorView,
>;

/// Dispatch at a scope with nothing selected below it: its default
/// operation if it has one, else nothing matched.
pub open spec fn dispatch_none(n: TusksNode, inputs: Seq<Supplied>, depth: nat) -> DispatchResult {
    match resolve_seq(value_args(declared_fields(n)), inputs) {
        Err(e) => Err(DispatchErrorView::Resolve(e)),
        Ok(vals) => {
            let here = seq![scope_here(n, vals, depth)];
            match first_default(n.tusks@) {
                Some(i) => Ok(
                    (
                        Seq::empty(),
                        here,
                        TargetView::Default {
                            name: n.tusks@[i].name@,
                            takes_parameters: n.tusks@[i].takes_parameters,
                            takes_external_args: n.tusks@[i].takes_external_args,
                            return_kind: n.tusks@[i].return_kind,
                        },
                    ),
                ),
                None => Ok((Seq::empty(), here, TargetView::NothingMatched)),
            }
        },
    }
}

/// Dispatch of a selection at scope `n`, whose parameters are read from
/// `inputs` and whose value sits at position `depth` of the dispatch: the
/// scope's parameters first, then the step, then what lies below it.
pub open spec fn dispatch_spec(
    n: TusksNode,
    inputs: Seq<Supplied>,
    sel: Selection,
    depth: nat,
) -> DispatchResult
    decreases sel,
{
    match resolve_seq(value_args(declared_fields(n)), inputs) {
        Err(e) => Err(DispatchErrorView::Resolve(e)),
        Ok(vals) => {
            let here = seq![scope_here(n, vals, depth)];
            match sel {
                Selection::Tusk { name, inputs: ti } => match first_name_index(
                    node_tusk_names(n.tusks@),
                    name@,
                ) {
                    None => Err(DispatchErrorView::UnknownCommand { name: name@ }),
                    Some(i) => match resolve_seq(n.tusks@[i].args(), ti@) {
                        Err(e) => Err(DispatchErrorView::Resolve(e)),
                        Ok(args) => Ok(
                            (
                                Seq::empty(),
                                here,
                                TargetView::Tusk {
                                    name: n.tusks@[i].name@,
                                    takes_parameters: n.tusks@[i].takes_parameters,
                                    args,
                                    return_kind: n.tusks@[i].return_kind,
                                },
                            ),
                        ),
                    },
                },
                Selection::Scope { name, inputs: ci, sub } => match first_name_index(
                    node_names(n.childs@),
                    name@,
                ) {
                    None => Err(DispatchErrorView::UnknownCommand { name: name@ }),
                    Some(i) => {
                        let below = match sub {
                            Some(b) => dispatch_spec(n.childs@[i], ci@, *b, depth + 1),
                            None => dispatch_none(n.childs@[i], ci@, depth + 1),
                        };
                        match below {
                            Err(e) => Err(e),
                            Ok(r) => Ok((seq![n.childs@[i].name@] + r.0, here + r.1, r.2)),
                        }
                    },
                },
                Selection::Link { alias, rest } => if has_link(n, alias@) {
                    Ok(
                        (
                            Seq::empty(),
                            here,
                            TargetView::Forward { alias: alias@, rest: texts(rest@) },
                        ),
                    )
                } else {
                    Err(DispatchErrorView::UnknownCommand { name: alias@ })
                },
            }
        },
    }
}

/// The dispatch of an optional selection from the root.
pub open spec fn dispatch_root(
    n: TusksNode,
    inputs: Seq<Supplied>,
    sel: Option<Selection>,
) -> DispatchResult {
    match sel {
        Some(s) => dispatch_spec(n, inputs, s, 0),
        None => dispatch_none(n, inputs, 0),
    }
}

pub proof fn lemma_value_args_prefix(fields: Seq<ParameterField>, k: int)
    requires
        0 <= k <= fields.len(),
    ensures
        value_args(fields.take(k)).len() <= value_args(fields).len(),
        value_args(fields).take(value_args(fields.take(k)).len() as int) == value_args(
            fields.take(k),
        ),
    decreases fields.len() - k,
{
    if k < fields.len() {
        lemma_value_args_prefix(fields, k + 1);
        let t = fields.take(k + 1);
        assert(t.drop_last() =~= fields.take(k));
        let a = value_args(fields.take(k));
        let b = value_args(t);
        let w = value_args(fields);
        if let ParameterField::Value(x) = t.last() {
            assert(b == a.push(x));
            assert(w.take(a.len() as int) =~= b.take(a.len() as int));
            assert(b.take(a.len() as int) =~= a);
        }
    } else {
        assert(fields.take(k) =~= fields);
        assert(value_args(fields).take(value_args(fields).len() as int) =~= value_args(fields));
    }
}

/// Resolves the value fields of a parameter scope.
fn resolve_fields(fields: &Vec<ParameterField>, inputs: &Vec<Supplied>) -> (r: Result<
    (Vec<String>, Vec<ResolvedValue>),
    ResolveError,
>)
    ensures
        r matches Ok(p) ==> texts(p.0@) == arg_names(value_args(fields@)) && resolve_seq(
            value_args(fields@),
            inputs@,
        ) == Ok::<Seq<ResolvedView>, ResolveErrorView>(values_view(p.1@)),
        r matches Err(e) ==> resolve_seq(value_args(fields@), inputs@) == Err::<
            Seq<ResolvedView>,
            ResolveErrorView,
        >(e@),
{
    let mut names: Vec<String> = Vec::new();
    let mut vals: Vec<ResolvedValue> = Vec::new();
    let mut i: usize = 0;
    assert(fields@.take(0) =~= Seq::<ParameterField>::empty());
    assert(texts(names@) =~= Seq::<Seq<char>>::empty());
    assert(values_view(vals@) =~= Seq::<ResolvedView>::empty());
    assert(arg_names(Seq::<Argument>::empty()) =~= Seq::<Seq<char>>::empty());
    while i < fields.len()
        invariant
            i <= fields@.len(),
            texts(names@) == arg_names(value_args(fields@.take(i as int))),
            resolve_seq(value_args(fields@.take(i as int)), inputs@) == Ok::<
                Seq<ResolvedView>,
                ResolveErrorView,
            >(values_view(vals@)),
        decreases fields@.len() - i,
    {
        proof {
            assert(fields@.take(i as int + 1).drop_last() =~= fields@.take(i as int));
        }
        if let ParameterField::Value(a) = &fields[i] {
            let ghost prev = value_args(fields@.take(i as int));
            assert(value_args(fields@.take(i as int + 1)) == prev.push(*a));
            assert(prev.push(*a).drop_last() =~= prev);
            let supplied = find_supplied(inputs, a.name.as_str());
            match a.extract_from_matches(supplied) {
                Ok(v) => {
                    let ghost vb = vals@;
                    let ghost nb = names@;
                    vals.push(v);
                    names.push(a.name.clone());
                    proof {
                        assert(values_view(vals@) =~= values_view(vb).push(v@));
                        assert(texts(names@) =~= texts(nb).push(a.name@));
                        assert(arg_names(prev.push(*a)) =~= arg_names(prev).push(a.name@));
                    }
                },
                Err(e) => {
                    proof {
                        let cur = value_args(fields@.take(i as int + 1));
                        lemma_value_args_prefix(fields@, i as int + 1);
                        let w = value_args(fields@);
                        assert(w.take(cur.len() as int) == cur);
                        crate::resolve::lemma_resolve_seq_error_persists(
                            w,
                            inputs@,
                            cur.len() as int,
                        );
                    }
                    return Err(e);
                },
            }
        }
        i = i + 1;
    }
    assert(fields@.take(fields@.len() as int) =~= fields@);
    Ok((names, vals))
}

fn find_tusk(ts: &Vec<Tusk>, name: &String) -> (r: Option<usize>)
    ensures
        r matches Some(i) ==> first_name_index(node_tusk_names(ts@), name@) == Some(i as int) && i
            < ts@.len(),
        r is None ==> first_name_index(node_tusk_names(ts@), name@) is None,
{
    let mut i: usize = 0;
    while i < ts.len()
        invariant
            i <= ts@.len(),
            forall|x: int| 0 <= x < i ==> node_tusk_names(ts@)[x] != name@,
        decreases ts@.len() - i,
    {
        if same_text(ts[i].name.as_str(), name.as_str()) {
            assert(node_tusk_names(ts@)[i as int] == name@);
            proof {
                lemma_first_name_index(node_tusk_names(ts@), name@);
            }
            return Some(i);
        }
        i = i + 1;
    }
    proof {
        lemma_first_name_index(node_tusk_names(ts@), name@);
    }
    None
}

fn find_child(cs: &Vec<TusksNode>, name: &String) -> (r: Option<usize>)
    ensures
        r matches Some(i) ==> first_name_index(node_names(cs@), name@) == Some(i as int) && i
            < cs@.len(),
        r is None ==> first_name_index(node_names(cs@), name@) is None,
{
    let mut i: usize = 0;
    while i < cs.len()
        invariant
            i <= cs@.len(),
            forall|x: int| 0 <= x < i ==> node_names(cs@)[x] != name@,
        decreases cs@.len() - i,
    {
        if same_text(cs[i].name.as_str(), name.as_str()) {
            assert(node_names(cs@)[i as int] == name@);
            proof {
                lemma_first_name_index(node_names(cs@), name@);
            }
            return Some(i);
        }
        i = i + 1;
    }
    proof {
        lemma_first_name_index(node_names(cs@), name@);
    }
    None
}

pub proof fn lemma_first_default(ts: Seq<Tusk>)
    ensures
        first_default(ts) matches Some(k) ==> 0 <= k < ts.len() && ts[k].is_default && forall|
            i: int,
        | 0 <= i < k ==> !ts[i].is_default,
        first_default(ts) is None ==> forall|i: int| 0 <= i < ts.len() ==> !ts[i].is_default,
    decreases ts.len(),
{
    if ts.len() > 0 {
        lemma_first_default(ts.drop_first());
        assert forall|i: int| 1 <= i < ts.len() implies ts[i] == ts.drop_first()[i - 1] by {}
    }
}

fn find_default(ts: &Vec<Tusk>) -> (r: Option<usize>)
    ensures
        r matches Some(i) ==> first_default(ts@) == Some(i as int) && i < ts@.len(),
        r is None ==> first_default(ts@) is None,
{
    proof {
        lemma_first_default(ts@);
    }
    let mut i: usize = 0;
    while i < ts.len()
        invariant
            i <= ts@.len(),
            forall|x: int| 0 <= x < i ==> !ts@[x].is_default,
            first_default(ts@) matches Some(k) ==> 0 <= k < ts@.len() && ts@[k].is_default
                && forall|y: int| 0 <= y < k ==> !ts@[y].is_default,
            first_default(ts@) is None ==> forall|y: int| 0 <= y < ts@.len() ==> !ts@[y].is_default,
        decreases ts@.len() - i,
    {
        if ts[i].is_default {
            return Some(i);
        }
        i = i + 1;
    }
    None
}

fn link_exists(n: &TusksNode, alias: &String) -> (r: bool)
    ensures
        r == has_link(*n, alias@),
{
    let mut l: usize = 0;
    while l < n.links.len()
        invariant
            l <= n.links@.len(),
            forall|x: int| 0 <= x < l ==> n.links@[x].name@ != alias@,
        decreases n.links@.len() - l,
    {
        if same_text(n.links[l].name.as_str(), alias.as_str()) {
            assert(n.links@[l as int].name@ == alias@);
            return true;
        }
        l = l + 1;
    }
    false
}

impl TusksNode {
    /// The materialized parameters of this scope at position `depth`.
    fn materialize(&self, inputs: &Vec<Supplied>, depth: usize) -> (r: Result<
        ScopeValue,
        ResolveError,
    >)
        ensures
            r matches Ok(v) ==> resolve_seq(value_args(declared_fields(*self)), inputs@) matches Ok(
                vals,
            ) && v@ == scope_here(*self, vals, depth as nat),
            r matches Err(e) ==> resolve_seq(value_args(declared_fields(*self)), inputs@) == Err::<
                Seq<ResolvedView>,
                ResolveErrorView,
            >(e@),
    {
        let (names, values) = match &self.parameters {
            Some(p) => resolve_fields(&p.fields, inputs)?,
            None => {
                let empty: Vec<ParameterField> = Vec::new();
                assert(empty@ =~= declared_fields(*self));
                resolve_fields(&empty, inputs)?
            },
        };
        let parent = if depth == 0 {
            None
        } else {
            Some(depth - 1)
        };
        Ok(ScopeValue { scope: self.name.clone(), names, values, parent })
    }

    fn dispatch_none_at(&self, inputs: &Vec<Supplied>, scopes: &mut Vec<ScopeValue>) -> (r: Result<
        Target,
        DispatchError,
    >)
        ensures
            dispatch_none(*self, inputs@, old(scopes)@.len()) matches Ok(x) ==> (r matches Ok(t)
                && t@ == x.2 && x.0.len() == 0 && scopes_view(final(scopes)@) == scopes_view(
                old(scopes)@,
            ) + x.1),
            dispatch_none(*self, inputs@, old(scopes)@.len()) matches Err(e) ==> (r matches Err(d)
                && d@ == e),
    {
        let depth = scopes.len();
        let here = match self.materialize(inputs, depth) {
            Ok(v) => v,
            Err(e) => {
                return Err(DispatchError::Resolve(e));
            },
        };
        let ghost before = scopes@;
        scopes.push(here);
        proof {
            assert(scopes_view(scopes@) =~= scopes_view(before) + seq![here@]);
        }
        match find_default(&self.tusks) {
            Some(i) => {
                let t = &self.tusks[i];
                Ok(
                    Target::Default {
                        name: t.name.clone(),
                        takes_parameters: t.takes_parameters,
                        takes_external_args: t.takes_external_args,
                        return_kind: t.return_kind,
                    },
                )
            },
            None => Ok(Target::NothingMatched),
        }
    }

    fn dispatch_at(
        &self,
        inputs: &Vec<Supplied>,
        sel: &Selection,
        scopes: &mut Vec<ScopeValue>,
        path: &mut Vec<String>,
    ) -> (r: Result<Target, DispatchError>)
        ensures
            dispatch_spec(*self, inputs@, *sel, old(scopes)@.len()) matches Ok(x) ==> (r matches Ok(
                t,
            ) && t@ == x.2 && scopes_view(final(scopes)@) == scopes_view(old(scopes)@) + x.1
                && texts(final(path)@) == texts(old(path)@) + x.0),
            dispatch_spec(*self, inputs@, *sel, old(scopes)@.len()) matches Err(e) ==> (r matches Err(
                d,
            ) && d@ == e),
        decreases sel,
    {
        let depth = scopes.len();
        let here = match self.materialize(inputs, depth) {
            Ok(v) => v,
            Err(e) => {
                return Err(DispatchError::Resolve(e));
            },
        };
        let ghost s0 = scopes@;
        let ghost path_before = path@;
        scopes.push(here);
        proof {
            assert(scopes_view(scopes@) =~= scopes_view(s0) + seq![here@]);
            assert(texts(path_before) + Seq::<Seq<char>>::empty() =~= texts(path_before));
        }
        match sel {
            Selection::Tusk { name, inputs: ti } => match find_tusk(&self.tusks, name) {
                None => Err(DispatchError::UnknownCommand { name: name.clone() }),
                Some(i) => {
                    let t = &self.tusks[i];
                    match resolve_tusk_arguments(t, ti) {
                        Err(e) => Err(DispatchError::Resolve(e)),
                        Ok(args) => Ok(
                            Target::Tusk {
                                name: t.name.clone(),
                                takes_parameters: t.takes_parameters,
                                args,
                                return_kind: t.return_kind,
                            },
                        ),
                    }
                },
            },
            Selection::Scope { name, inputs: ci, sub } => match find_child(&self.childs, name) {
                None => Err(DispatchError::UnknownCommand { name: name.clone() }),
                Some(i) => {
                    let child = &self.childs[i];
                    path.push(child.name.clone());
                    let ghost s1 = scopes@;
                    let ghost path_after = path@;
                    proof {
                        assert(texts(path_after) =~= texts(path_before).push(child.name@));
                    }
                    let below = match sub {
                        Some(b) => child.dispatch_at(ci, b, scopes, path),
                        None => child.dispatch_none_at(ci, scopes),
                    };
                    proof {
                        if below is Ok {
                            let x = match sub {
                                Some(b) => dispatch_spec(*child, ci@, **b, depth as nat + 1),
                                None => dispatch_none(*child, ci@, depth as nat + 1),
                            };
                            if let Ok(y) = x {
                                assert(scopes_view(scopes@) =~= scopes_view(s0) + (seq![here@]
                                    + y.1));
                                assert(texts(path@) =~= texts(path_before) + (seq![child.name@] + y.0));
                            }
                        }
                    }
                    below
                },
            },
            Selection::Link { alias, rest } => {
                if link_exists(self, alias) {
                    let r = copy_strings(rest);
                    Ok(Target::Forward { alias: alias.clone(), rest: r })
                } else {
                    Err(DispatchError::UnknownCommand { name: alias.clone() })
                }
            },
        }
    }

    /// Dispatches a parsed selection from this scope as the root: `inputs`
    /// are the values found for the root's parameter fields, `sel` what was
    /// selected below it.
    pub fn dispatch(&self, inputs: &Vec<Supplied>, sel: &Option<Selection>) -> (r: Result<
        Dispatch,
        DispatchError,
    >)
        ensures
            dispatch_root(*self, inputs@, *sel) matches Ok(x) ==> (r matches Ok(d) && texts(d.path@)
                == x.0 && scopes_view(d.scopes@) == x.1 && d.target@ == x.2),
            dispatch_root(*self, inputs@, *sel) matches Err(e) ==> (r matches Err(d) && d@ == e),
    {
        let r = self.dispatch_linked(inputs, sel, Vec::new());
        proof {
            if let Ok(x) = dispatch_root(*self, inputs@, *sel) {
                assert(Seq::<ScopeValueView>::empty() + x.1 =~= x.1);
            }
        }
        r
    }

    /// Continues, in this tree, a dispatch that an external link forwarded:
    /// `outer` holds the scope values materialized so far, and this tree's
    /// root refers to the last of them as its ancestor.
    pub fn dispatch_linked(
        &self,
        inputs: &Vec<Supplied>,
        sel: &Option<Selection>,
        outer: Vec<ScopeValue>,
    ) -> (r: Result<Dispatch, DispatchError>)
        ensures
            dispatch_at_depth(*self, inputs@, *sel, outer@.len() as nat) matches Ok(x) ==> (r matches Ok(
                d,
            ) && texts(d.path@) == x.0 && scopes_view(d.scopes@) == scopes_view(outer@) + x.1
                && d.target@ == x.2),
            dispatch_at_depth(*self, inputs@, *sel, outer@.len() as nat) matches Err(e) ==> (r matches Err(
                d,
            ) && d@ == e),
    {
        let mut scopes = outer;
        let mut path: Vec<String> = Vec::new();
        assert(texts(path@) =~= Seq::<Seq<char>>::empty());
        let target = match sel {
            Some(s) => self.dispatch_at(inputs, s, &mut scopes, &mut path)?,
            None => self.dispatch_none_at(inputs, &mut scopes)?,
        };
        proof {
            if let Ok(x) = dispatch_at_depth(*self, inputs@, *sel, outer@.len() as nat) {
                assert(Seq::<Seq<char>>::empty() + x.0 =~= x.0);
            }
        }
        Ok(Dispatch { path, scopes, target })
    }
}

/// The dispatch of an optional selection at scope `n` at position `depth`.
pub open spec fn dispatch_at_depth(
    n: TusksNode,
    inputs: Seq<Supplied>,
    sel: Option<Selection>,
    depth: nat,
) -> DispatchResult {
    match sel {
        Some(s) => dispatch_spec(n, inputs, s, depth),
        None => dispatch_none(n, inputs, depth),
    }
}

/// The result code of a dispatch that ended at `target`: the handler's
/// result for an operation, the linked tree's for a forward, and
/// `NothingMatched` where nothing was selected and there is no default.
pub fn target_result(target: &Target, returned: Option<u8>, forwarded: ResultCode) -> (r: ResultCode)
    ensures
        *target is NothingMatched ==> r == ResultCode::NothingMatched,
        *target is Forward ==> r == forwarded,
        target matches Target::Tusk { return_kind, .. } ==> r == result_code_spec(*return_kind, returned),
        target matches Target::Default { return_kind, .. } ==> r == result_code_spec(*return_kind, returned),
{
    match target {
        Target::Tusk { return_kind, .. } => result_code(*return_kind, returned),
        Target::Default { return_kind, .. } => result_code(*return_kind, returned),
        Target::Forward { .. } => forwarded,
        Target::NothingMatched => ResultCode::NothingMatched,
    }
}

/// The scope values of a dispatch path starting at depth `depth` form a
/// chain: each refers to the one before it, the root to none, and each
/// below the first belongs to the scope taken at that step.
pub open spec fn chained(
    path: Seq<Seq<char>>,
    scopes: Seq<ScopeValueView>,
    first: Seq<char>,
    depth: nat,
) -> bool {
    &&& scopes.len() == path.len() + 1
    &&& scopes[0].scope == first
    &&& forall|k: int|
        0 <= k < scopes.len() ==> (#[trigger] scopes[k]).parent == if depth + k == 0 {
            None::<int>
        } else {
            Some(depth + k - 1)
        }
    &&& forall|k: int| 0 <= k < path.len() ==> #[trigger] scopes[k + 1].scope == path[k]
}

proof fn lemma_dispatch_chained(n: TusksNode, inputs: Seq<Supplied>, sel: Selection, depth: nat)
    ensures
        dispatch_spec(n, inputs, sel, depth) matches Ok(x) ==> chained(x.0, x.1, n.name@, depth),
    decreases sel,
{
    if let Ok(x) = dispatch_spec(n, inputs, sel, depth) {
        if let Selection::Scope { name, inputs: ci, sub } = sel {
            let i = first_name_index(node_names(n.childs@), name@)->0;
            let c = n.childs@[i];
            let below = match sub {
                Some(b) => dispatch_spec(c, ci@, *b, depth + 1),
                None => dispatch_none(c, ci@, depth + 1),
            };
            if let Some(b) = sub {
                lemma_dispatch_chained(c, ci@, *b, depth + 1);
            }
            let y = below->Ok_0;
            assert(chained(y.0, y.1, c.name@, depth + 1));
            let sc = x.1;
            let ps = x.0;
            assert forall|k: int| 0 <= k < sc.len() implies (#[trigger] sc[k]).parent == if depth
                + k == 0 {
                None::<int>
            } else {
                Some(depth + k - 1)
            } by {
                if k > 0 {
                    assert(sc[k] == y.1[k - 1]);
                }
            }
            assert forall|k: int| 0 <= k < ps.len() implies #[trigger] sc[k + 1].scope == ps[k] by {
                assert(sc[k + 1] == y.1[k]);
                if k > 0 {
                    assert(ps[k] == y.0[k - 1]);
                    assert(y.1[(k - 1) + 1].scope == y.0[k - 1]);
                }
            }
        }
    }
}

/// Inheritance: in every dispatch, the materialized value of each scope
/// below the root refers, as its ancestor, to the very value materialized
/// for its parent scope in the same dispatch (the one just before it),
/// and the root's refers to none. So for root, A, B, B's ancestor is A's
/// value and A's is the root's.
pub proof fn lemma_ancestor_is_parent_value(
    n: TusksNode,
    inputs: Seq<Supplied>,
    sel: Option<Selection>,
)
    ensures
        dispatch_root(n, inputs, sel) matches Ok(x) ==> {
            &&& x.1.len() == x.0.len() + 1
            &&& x.1[0].parent is None
            &&& x.1[0].scope == n.name@
            &&& forall|k: int| 1 <= k < x.1.len() ==> (#[trigger] x.1[k]).parent == Some(k - 1)
            &&& forall|k: int| 0 <= k < x.0.len() ==> #[trigger] x.1[k + 1].scope == x.0[k]
        },
{
    if let Some(s) = sel {
        lemma_dispatch_chained(n, inputs, s, 0);
    }
    if let Ok(x) = dispatch_root(n, inputs, sel) {
        assert(chained(x.0, x.1, n.name@, 0));
        assert(x.1[0].parent is None);
    }
}

/// The operation that a selection addresses, with the values found for its
/// arguments: the first child of each name along the way, then the first
/// operation of the final name.
pub open spec fn addressed_tusk(n: TusksNode, sel: Selection) -> Option<(Tusk, Seq<Supplied>)>
    decreases sel,
{
    match sel {
        Selection::Tusk { name, inputs } => match first_name_index(
            node_tusk_names(n.tusks@),
            name@,
        ) {
            Some(i) => Some((n.tusks@[i], inputs@)),
            None => None,
        },
        Selection::Scope { name, inputs, sub } => match first_name_index(
            node_names(n.childs@),
            name@,
        ) {
            Some(i) => match sub {
                Some(b) => addressed_tusk(n.childs@[i], *b),
                None => None,
            },
            None => None,
        },
        Selection::Link { .. } => None,
    }
}

pub proof fn lemma_resolve_seq_len(args: Seq<Argument>, inputs: Seq<Supplied>)
    ensures
        resolve_seq(args, inputs) matches Ok(vs) ==> vs.len() == args.len(),
    decreases args.len(),
{
    if args.len() > 0 {
        lemma_resolve_seq_len(args.drop_last(), inputs);
    }
}

/// Round trip: a selection that the compiled grammar of a tree admits is
/// never reported as unknown by the tree's dispatcher, and where it
/// addresses an operation, a successful dispatch ends at exactly that
/// operation, with one argument per declared argument, each resolved by the
/// resolution policy from the values found for it.
pub proof fn lemma_round_trip(
    n: TusksNode,
    s: CommandSchema,
    inputs: Seq<Supplied>,
    sel: Selection,
    depth: nat,
)
    requires
        schema_matches(s, n),
        accepts(s, sel),
    ensures
        !(dispatch_spec(n, inputs, sel, depth) matches Err(DispatchErrorView::UnknownCommand { .. })),
        addressed_tusk(n, sel) matches Some(p) ==> (dispatch_spec(n, inputs, sel, depth) matches Ok(x) ==> {
            &&& x.2 matches TargetView::Tusk { name, args, .. }
            &&& x.2->Tusk_name == p.0.name@
            &&& x.2->Tusk_args.len() == p.0.args().len()
            &&& resolve_seq(p.0.args(), p.1) == Ok::<Seq<ResolvedView>, ResolveErrorView>(x.2->Tusk_args)
        }),
    decreases sel,
{
    match sel {
        Selection::Tusk { name, inputs: ti } => {
            assert forall|i: int| 0 <= i < s.tusks@.len() implies tusk_names(s.tusks@)[i]
                == node_tusk_names(n.tusks@)[i] by {
                assert(tusk_schema_matches(s.tusks@[i], n.tusks@[i]));
            }
            assert(tusk_names(s.tusks@) =~= node_tusk_names(n.tusks@));
            if let Some(i) = first_name_index(node_tusk_names(n.tusks@), name@) {
                lemma_resolve_seq_len(n.tusks@[i].args(), ti@);
            }
        },
        Selection::Scope { name, inputs: ci, sub } => {
            assert forall|i: int| 0 <= i < s.subcommands@.len() implies command_names(
                s.subcommands@,
            )[i] == node_names(n.childs@)[i] by {
                lemma_all_schema_matches_index(s.subcommands@, n.childs@, i);
            }
            assert(command_names(s.subcommands@) =~= node_names(n.childs@));
            let i = first_name_index(node_names(n.childs@), name@)->0;
            lemma_first_name_index(node_names(n.childs@), name@);
            lemma_all_schema_matches_index(s.subcommands@, n.childs@, i);
            if let Some(b) = sub {
                lemma_round_trip(n.childs@[i], s.subcommands@[i], ci@, *b, depth + 1);
            }
        },
        Selection::Link { alias, rest } => {
            let l = choose|l: int| 0 <= l < s.links@.len() && (#[trigger] s.links@[l])@ == alias@;
            assert(n.links@[l].name@ == alias@);
        },
    }
}

} // verus!
