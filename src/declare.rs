//! From declarations to the model: an operation from its parameter list and
//! return type, and the links of a scope from its `pub use` items.
use vstd::prelude::*;
use crate::argument::Argument;
use crate::error::SchemaError;
use crate::node::{LinkNode, TusksNode};
use crate::shape::{
    argument_from_param, first_type_arg, ident_is, shape_rejected, FnParam, TypeArg, TypeExpr,
};
use crate::text::same_text;
use crate::tusk::{key_index, lemma_key_index, ReturnKind, Tusk};

verus! {

pub open spec fn is_u8(t: TypeExpr) -> bool {
    ident_is(t, "u8"@)
}

pub open spec fn is_option_u8(t: TypeExpr) -> bool {
    ident_is(t, "Option"@) && first_type_arg(t) is Some && is_u8(first_type_arg(t)->0)
}

/// What a handler's declared return type makes of its result.
pub open spec fn return_kind_spec(output: Option<TypeExpr>) -> Option<ReturnKind> {
    match output {
        None => Some(ReturnKind::Unit),
        Some(t) => if is_u8(t) {
            Some(ReturnKind::Code)
        } else if is_option_u8(t) {
            Some(ReturnKind::OptionalCode)
        } else {
            None
        },
    }
}

/// `&Parameters`: a reference to the scope's parameters.
pub open spec fn is_parameters_ref(t: TypeExpr) -> bool {
    t.referent is Some && ident_is(*t.referent->0, "Parameters"@)
}

/// `Vec<String>`.
pub open spec fn is_vec_string(t: TypeExpr) -> bool {
    &&& ident_is(t, "Vec"@)
    &&& t.args is Some && t.args->0@.len() == 1
    &&& first_type_arg(t) is Some
    &&& ({
        let inner = first_type_arg(t)->0;
        inner.single_segment && ident_is(inner, "String"@) && inner.args is None
    })
}

pub open spec fn param_type_is(p: FnParam, f: spec_fn(TypeExpr) -> bool) -> bool {
    p matches FnParam::Typed { ty, .. } && f(ty)
}

/// The handler takes the scope's parameters first.
pub open spec fn takes_parameters_spec(params: Seq<FnParam>) -> bool {
    params.len() > 0 && param_type_is(params[0], |t: TypeExpr| is_parameters_ref(t))
}

pub open spec fn first_value_param(params: Seq<FnParam>) -> int {
    if takes_parameters_spec(params) {
        1
    } else {
        0
    }
}

/// A default operation takes nothing beyond the parameters, or only the
/// trailing tokens where the scope lets them through.
pub open spec fn default_params_ok(params: Seq<FnParam>, allow_external: bool) -> bool {
    let k = first_value_param(params);
    params.len() == k || (params.len() == k + 1 && allow_external && param_type_is(
        params[k],
        |t: TypeExpr| is_vec_string(t),
    ))
}

/// The parameter describes an argument: it has a plain name and a shape
/// that is not rejected.
pub open spec fn param_arg_ok(p: FnParam) -> bool {
    p matches FnParam::Typed { name, ty } && name is Some && !shape_rejected(ty)
}

pub open spec fn param_name(p: FnParam) -> Seq<char> {
    match p {
        FnParam::Typed { name: Some(n), .. } => n@,
        _ => Seq::empty(),
    }
}

/// Every parameter from `k` on describes an argument, under distinct names.
pub open spec fn value_params_ok(params: Seq<FnParam>, k: int) -> bool {
    &&& forall|i: int| k <= i < params.len() ==> param_arg_ok(#[trigger] params[i])
    &&& forall|i: int, j: int|
        k <= i < j < params.len() ==> param_name(#[trigger] params[i]) != param_name(
            #[trigger] params[j],
        )
}

fn ident_eq(t: &TypeExpr, name: &str) -> (r: bool)
    ensures
        r == ident_is(*t, name@),
{
    match &t.ident {
        Some(id) => same_text(id.as_str(), name),
        None => false,
    }
}

fn first_type_arg_of(t: &TypeExpr) -> (r: Option<&TypeExpr>)
    ensures
        r matches Some(x) ==> first_type_arg(*t) == Some(*x),
        r is None ==> first_type_arg(*t) is None,
{
    match &t.args {
        Some(args) => {
            if args.len() > 0 {
                match &args[0] {
                    TypeArg::Type(inner) => Some(inner),
                    _ => None,
                }
            } else {
                None
            }
        },
        None => None,
    }
}

impl Tusk {
    /// Whether the type is `u8`.
    pub fn is_u8_type(t: &TypeExpr) -> (r: bool)
        ensures
            r == is_u8(*t),
    {
        ident_eq(t, "u8")
    }

    /// Whether the type is `Option<u8>`.
    pub fn is_option_u8_type(t: &TypeExpr) -> (r: bool)
        ensures
            r == is_option_u8(*t),
    {
        if !ident_eq(t, "Option") {
            return false;
        }
        match first_type_arg_of(t) {
            Some(inner) => Tusk::is_u8_type(inner),
            None => false,
        }
    }
}

fn return_kind_of(output: &Option<TypeExpr>) -> (r: Result<ReturnKind, SchemaError>)
    ensures
        r matches Ok(k) ==> return_kind_spec(*output) == Some(k),
        r is Err ==> return_kind_spec(*output) is None && (r matches Err(
            SchemaError::InvalidReturnType { .. },
        )),
{
    match output {
        None => Ok(ReturnKind::Unit),
        Some(t) => {
            if Tusk::is_u8_type(t) {
                Ok(ReturnKind::Code)
            } else if Tusk::is_option_u8_type(t) {
                Ok(ReturnKind::OptionalCode)
            } else {
                Err(SchemaError::InvalidReturnType { type_text: t.text.clone() })
            }
        },
    }
}

/// Whether a parameter is `&Parameters`.
pub fn is_parameters_param(p: &FnParam) -> (r: bool)
    ensures
        r == param_type_is(*p, |t: TypeExpr| is_parameters_ref(t)),
{
    match p {
        FnParam::Typed { ty, .. } => match &ty.referent {
            Some(inner) => ident_eq(inner, "Parameters"),
            None => false,
        },
        FnParam::Receiver => false,
    }
}

fn is_vec_string_param(p: &FnParam) -> (r: bool)
    ensures
        r == param_type_is(*p, |t: TypeExpr| is_vec_string(t)),
{
    match p {
        FnParam::Typed { ty, .. } => {
            if !ident_eq(ty, "Vec") {
                return false;
            }
            match &ty.args {
                Some(args) => {
                    if args.len() != 1 {
                        return false;
                    }
                },
                None => {
                    return false;
                },
            }
            match first_type_arg_of(ty) {
                Some(inner) => inner.single_segment && ident_eq(inner, "String")
                    && inner.args.is_none(),
                None => false,
            }
        },
        FnParam::Receiver => false,
    }
}

impl Tusk {
    /// Builds an operation from its declaration: the return type decides the
    /// result code, a first `&Parameters` parameter receives the scope's
    /// parameters, and every further parameter becomes an argument in order.
    /// A default operation takes no arguments, only, where the scope allows
    /// it, the trailing tokens as `Vec<String>`.
    pub fn from_fn(
        name: String,
        params: &Vec<FnParam>,
        output: &Option<TypeExpr>,
        is_default: bool,
        allow_external: bool,
    ) -> (r: Result<Tusk, SchemaError>)
        ensures
            return_kind_spec(*output) is None ==> (r matches Err(
                SchemaError::InvalidReturnType { .. },
            )),
            return_kind_spec(*output) is Some ==> (r is Ok <==> if is_default {
                default_params_ok(params@, allow_external)
            } else {
                value_params_ok(params@, first_value_param(params@))
            }),
            r matches Ok(t) ==> {
                &&& t.wf()
                &&& t.name == name
                &&& t.is_default == is_default
                &&& Some(t.return_kind) == return_kind_spec(*output)
                &&& t.takes_parameters == takes_parameters_spec(params@)
                &&& t.takes_external_args == (is_default && params@.len() > first_value_param(
                    params@,
                ))
                &&& is_default ==> t.entries().len() == 0
                &&& !is_default ==> {
                    let k = first_value_param(params@);
                    &&& t.entries().len() == params@.len() - k
                    &&& forall|j: int|
                        0 <= j < t.entries().len() ==> argument_from_param(
                            param_name(params@[k + j]),
                            params@[k + j]->Typed_ty,
                            #[trigger] t.entries()[j].1,
                        )
                }
            },
    {
        let return_kind = return_kind_of(output)?;
        let mut t = Tusk::new(name);
        t.return_kind = return_kind;
        t.is_default = is_default;
        let n = params.len();
        let mut start: usize = 0;
        if n > 0 && is_parameters_param(&params[0]) {
            t.takes_parameters = true;
            start = 1;
        }
        assert(start == first_value_param(params@));
        if is_default {
            if n == start {
                return Ok(t);
            }
            if n == start + 1 && allow_external && is_vec_string_param(&params[start]) {
                t.takes_external_args = true;
                return Ok(t);
            }
            return Err(SchemaError::InvalidDefaultSignature { tusk: t.name });
        }
        let mut i: usize = start;
        while i < n
            invariant
                n == params@.len(),
                start == first_value_param(params@),
                start <= i <= n,
                !is_default,
                t.wf(),
                t.name == name,
                !t.is_default,
                Some(t.return_kind) == return_kind_spec(*output),
                t.takes_parameters == takes_parameters_spec(params@),
                !t.takes_external_args,
                t.entries().len() == i - start,
                forall|x: int| start <= x < i ==> param_arg_ok(#[trigger] params@[x]),
                forall|x: int, y: int|
                    start <= x < y < i ==> param_name(#[trigger] params@[x]) != param_name(
                        #[trigger] params@[y],
                    ),
                forall|j: int|
                    0 <= j < t.entries().len() ==> argument_from_param(
                        param_name(params@[start + j]),
                        params@[start + j]->Typed_ty,
                        #[trigger] t.entries()[j].1,
                    ),
                forall|j: int|
                    0 <= j < t.entries().len() ==> #[trigger] t.entries()[j].0 == param_name(
                        params@[start + j],
                    ),
            decreases n - i,
        {
            let a = match Argument::from_fn_arg(&params[i]) {
                Ok(a) => a,
                Err(e) => {
                    assert(!param_arg_ok(params@[i as int]));
                    return Err(e);
                },
            };
            assert(a.name@ == param_name(params@[i as int]));
            let ghost before = t.entries();
            proof {
                lemma_key_index(before, a.name@);
            }
            match t.add_argument(a) {
                Ok(()) => {
                    proof {
                        assert forall|x: int| start <= x < i implies param_name(params@[x])
                            != param_name(params@[i as int]) by {
                            assert(before[x - start].0 == param_name(params@[start + (x - start)]));
                        }
                    }
                },
                Err(e) => {
                    proof {
                        let j = key_index(before, a.name@)->0;
                        assert(param_name(params@[start + j]) == param_name(params@[i as int]));
                        assert(!value_params_ok(params@, start as int));
                    }
                    return Err(e);
                },
            }
            i = i + 1;
        }
        Ok(t)
    }
}

/// A `pub use` item as written.
pub enum UseTree {
    /// `a::<tree>`
    Path { ident: String, tree: Box<UseTree> },
    /// `a`
    Name { ident: String },
    /// `a as b`
    Rename { ident: String, rename: String },
    /// `a::*`
    Glob,
    /// `{a, b, ...}`
    Group { items: Vec<UseTree> },
}

/// The names a `use` tree brings in, in order, each marked when it names
/// the tree's parent (`parent_`; a plain `parent_` only counts at the root
/// of a scope tree).
pub open spec fn use_entries(t: UseTree, is_root: bool) -> Seq<(bool, Seq<char>)>
    decreases t,
{
    match t {
        UseTree::Path { tree, .. } => use_entries(*tree, is_root),
        UseTree::Name { ident } => seq![(ident@ == "parent_"@ && is_root, ident@)],
        UseTree::Rename { rename, .. } => seq![(rename@ == "parent_"@, rename@)],
        UseTree::Glob => Seq::empty(),
        UseTree::Group { items } => group_entries(items@, is_root),
    }
}

pub open spec fn group_entries(s: Seq<UseTree>, is_root: bool) -> Seq<(bool, Seq<char>)>
    decreases s,
{
    if s.len() == 0 {
        Seq::empty()
    } else {
        group_entries(s.subrange(0, s.len() - 1), is_root) + use_entries(s[s.len() - 1], is_root)
    }
}

/// The names that are not the parent.
pub open spec fn plain_names(e: Seq<(bool, Seq<char>)>) -> Seq<Seq<char>>
    decreases e.len(),
{
    if e.len() == 0 {
        Seq::empty()
    } else if e.last().0 {
        plain_names(e.drop_last())
    } else {
        plain_names(e.drop_last()).push(e.last().1)
    }
}

/// The last name that is the parent.
pub open spec fn last_parent(e: Seq<(bool, Seq<char>)>) -> Option<Seq<char>>
    decreases e.len(),
{
    if e.len() == 0 {
        None
    } else if e.last().0 {
        Some(e.last().1)
    } else {
        last_parent(e.drop_last())
    }
}

pub open spec fn entries_view(v: Seq<(bool, String)>) -> Seq<(bool, Seq<char>)> {
    v.map_values(|p: (bool, String)| (p.0, p.1@))
}

pub open spec fn link_names(v: Seq<LinkNode>) -> Seq<Seq<char>> {
    v.map_values(|l: LinkNode| l.name@)
}

fn collect_use_entries(t: &UseTree, is_root: bool, out: &mut Vec<(bool, String)>)
    ensures
        entries_view(final(out)@) == entries_view(old(out)@) + use_entries(*t, is_root),
    decreases t,
{
    let ghost start = entries_view(out@);
    match t {
        UseTree::Path { tree, .. } => {
            collect_use_entries(tree, is_root, out);
        },
        UseTree::Name { ident } => {
            let is_parent = is_root && same_text(ident.as_str(), "parent_");
            out.push((is_parent, ident.clone()));
            assert(entries_view(out@) =~= start + use_entries(*t, is_root));
        },
        UseTree::Rename { rename, .. } => {
            let is_parent = same_text(rename.as_str(), "parent_");
            out.push((is_parent, rename.clone()));
            assert(entries_view(out@) =~= start + use_entries(*t, is_root));
        },
        UseTree::Glob => {
            assert(entries_view(out@) =~= start + use_entries(*t, is_root));
        },
        UseTree::Group { items } => {
            let mut k: usize = 0;
            assert(items@.subrange(0, 0) =~= Seq::<UseTree>::empty());
            assert(entries_view(out@) =~= start + group_entries(items@.subrange(0, 0), is_root));
            while k < items.len()
                invariant
                    k <= items@.len(),
                    *t == (UseTree::Group { items: *items }),
                    entries_view(out@) == start + group_entries(
                        items@.subrange(0, k as int),
                        is_root,
                    ),
                decreases items@.len() - k,
            {
                assert(decreases_to!(*t => t->Group_items));
                assert(decreases_to!(t->Group_items => items@));
                assert(decreases_to!(items@ => items@[k as int]));
                assert(decreases_to!(*t => items@[k as int]));
                collect_use_entries(&items[k], is_root, out);
                proof {
                    let pre = items@.subrange(0, k as int + 1);
                    assert(pre.subrange(0, k as int) =~= items@.subrange(0, k as int));
                    assert(entries_view(out@) =~= start + group_entries(pre, is_root));
                }
                k = k + 1;
            }
            assert(items@.subrange(0, k as int) =~= items@);
        },
    }
}

impl TusksNode {
    /// Takes the names that a `pub use` item brings in: `parent_` (see
    /// `use_entries`) declares the tree this one is spliced into, every
    /// other name is an external link.
    pub fn extract_external_modules(&mut self, tree: &UseTree, is_root: bool)
        ensures
            link_names(final(self).links@) == link_names(old(self).links@) + plain_names(
                use_entries(*tree, is_root),
            ),
            last_parent(use_entries(*tree, is_root)) matches Some(p) ==> (final(self).external_parent matches Some(l) && l.name@ == p),
            last_parent(use_entries(*tree, is_root)) is None ==> final(self).external_parent
                == old(self).external_parent,
            final(self).name == old(self).name,
            final(self).tusks == old(self).tusks,
            final(self).childs == old(self).childs,
            final(self).parameters == old(self).parameters,
    {
        let mut entries: Vec<(bool, String)> = Vec::new();
        collect_use_entries(tree, is_root, &mut entries);
        let ghost e = use_entries(*tree, is_root);
        assert(entries_view(entries@) =~= e);
        let ghost links0 = link_names(self.links@);
        let ghost parent0 = self.external_parent;
        let mut i: usize = 0;
        assert(e.take(0) =~= Seq::<(bool, Seq<char>)>::empty());
        while i < entries.len()
            invariant
                i <= entries@.len(),
                entries_view(entries@) == e,
                link_names(self.links@) == links0 + plain_names(e.take(i as int)),
                last_parent(e.take(i as int)) matches Some(p) ==> (self.external_parent matches Some(
                    l,
                ) && l.name@ == p),
                last_parent(e.take(i as int)) is None ==> self.external_parent == parent0,
                self.name == old(self).name,
                self.tusks == old(self).tusks,
                self.childs == old(self).childs,
                self.parameters == old(self).parameters,
            decreases entries@.len() - i,
        {
            let (is_parent, name) = &entries[i];
            assert(e[i as int] == (*is_parent, name@));
            proof {
                assert(e.take(i as int + 1).drop_last() =~= e.take(i as int));
            }
            let ghost before = self.links@;
            if *is_parent {
                self.external_parent = Some(LinkNode { name: name.clone() });
            } else {
                self.links.push(LinkNode { name: name.clone() });
                assert(link_names(self.links@) =~= link_names(before).push(name@));
            }
            i = i + 1;
        }
        assert(e.take(i as int) =~= e);
    }

    /// A scope tree must be the root of its command or declare, through
    /// `parent_`, the tree it is spliced into; not both. Only the top scope
    /// of a tree (`is_root`) is held to this.
    pub fn validate_is_root_or_has_parent(&self, is_tusks_root: bool, is_root: bool) -> (r: Result<
        (),
        SchemaError,
    >)
        ensures
            r is Ok <==> (!is_root || (is_tusks_root == self.external_parent is None)),
            r matches Err(e) ==> (e matches SchemaError::MissingParent { .. } || e matches SchemaError::RootWithParent { .. }),
            is_root && !is_tusks_root && self.external_parent is None ==> (r matches Err(
                SchemaError::MissingParent { .. },
            )),
            is_root && is_tusks_root && self.external_parent is Some ==> (r matches Err(
                SchemaError::RootWithParent { .. },
            )),
    {
        if !is_root {
            return Ok(());
        }
        if !is_tusks_root {
            if self.external_parent.is_none() {
                return Err(SchemaError::MissingParent { scope: self.name.clone() });
            }
        } else if self.external_parent.is_some() {
            return Err(SchemaError::RootWithParent { scope: self.name.clone() });
        }
        Ok(())
    }
}

} // verus!
