//! The schema compiler: a scope tree becomes a grammar of nested
//! alternatives, one per operation, child scope and external link, with one
//! argument declaration per descriptor.
use vstd::prelude::*;
use crate::argument::{Argument, ArgumentMultiplicity, ValueHint};
use crate::node::{declared_fields, ParameterField, TusksNode};
use crate::resolve::Supplied;
use crate::selection::Selection;
use crate::text::{copy_strings, same_text};
use crate::tusk::Tusk;

verus! {

/// How the parser takes one argument.
pub struct ArgDecl {
    pub id: String,
    /// `--id` for a named argument; `None` for a positional one.
    pub long: Option<String>,
    /// The 1-based position of a positional argument among the positional
    /// arguments of its alternative.
    pub index: Option<usize>,
    /// Takes no value: presence sets it.
    pub is_flag: bool,
    pub required: bool,
    pub default: Option<String>,
    pub num_args: Option<ArgumentMultiplicity>,
    pub possible_values: Option<Vec<String>>,
    pub validator: Option<String>,
    pub short: Option<char>,
    pub help: Option<String>,
    pub hidden: bool,
    pub value_hint: Option<ValueHint>,
    pub value_type: String,
}

/// The alternative of one operation.
pub struct TuskSchema {
    pub name: String,
    pub args: Vec<ArgDecl>,
}

/// The grammar of one scope.
pub struct CommandSchema {
    pub name: String,
    /// The parameter scope's value fields.
    pub args: Vec<ArgDecl>,
    pub tusks: Vec<TuskSchema>,
    pub subcommands: Vec<CommandSchema>,
    /// The aliases of the external links.
    pub links: Vec<String>,
    /// Whether a further selection may follow.
    pub has_subcommand: bool,
    /// Whether unmatched trailing tokens are permitted.
    pub allow_external_subcommands: bool,
}

/// The number of positional arguments among `args`.
pub open spec fn positional_count(args: Seq<Argument>) -> nat
    decreases args.len(),
{
    if args.len() == 0 {
        0
    } else {
        positional_count(args.drop_last()) + if args.last().positional {
            1nat
        } else {
            0nat
        }
    }
}

/// The declaration of argument `a`, the `rank`-th positional one if it is
/// positional: a flag takes no value; otherwise it is required unless it
/// has a default or is optional, and it carries its multiplicity, allowed
/// values and validator.
pub open spec fn decl_matches(d: ArgDecl, a: Argument, rank: nat) -> bool {
    &&& d.id == a.name
    &&& d.is_flag == a.flag
    &&& d.value_type == a.type_
    &&& d.required == (!a.flag && a.default is None && !a.optional)
    &&& d.default == if a.flag {
        None
    } else {
        a.default
    }
    &&& d.num_args == if a.flag {
        None
    } else {
        a.count
    }
    &&& (d.possible_values is Some <==> (!a.flag && a.arg_enum is Some))
    &&& (d.possible_values is Some ==> d.possible_values->0@ == a.arg_enum->0@)
    &&& d.validator == if a.flag {
        None
    } else {
        a.validator
    }
    &&& d.long == if a.positional {
        None
    } else {
        Some(a.name)
    }
    &&& d.index == if a.positional {
        Some(rank as usize)
    } else {
        None
    }
    &&& d.short == a.short
    &&& d.help == a.help
    &&& d.hidden == a.hidden
    &&& d.value_hint == a.value_hint
}

/// One declaration per argument, in order.
pub open spec fn decls_match(ds: Seq<ArgDecl>, args: Seq<Argument>) -> bool {
    &&& ds.len() == args.len()
    &&& forall|j: int|
        0 <= j < args.len() ==> decl_matches(
            #[trigger] ds[j],
            args[j],
            positional_count(args.take(j + 1)),
        )
}

/// The value fields of a parameter scope, in order.
pub open spec fn value_args(fields: Seq<ParameterField>) -> Seq<Argument>
    decreases fields.len(),
{
    if fields.len() == 0 {
        Seq::empty()
    } else {
        match fields.last() {
            ParameterField::Value(a) => value_args(fields.drop_last()).push(a),
            ParameterField::Super => value_args(fields.drop_last()),
        }
    }
}

pub open spec fn tusk_schema_matches(s: TuskSchema, t: Tusk) -> bool {
    &&& s.name == t.name
    &&& decls_match(s.args@, t.args())
}

/// `s` is the grammar of the scope tree `n`.
pub open spec fn schema_matches(s: CommandSchema, n: TusksNode) -> bool
    decreases n,
{
    &&& s.name == n.name
    &&& decls_match(s.args@, value_args(declared_fields(n)))
    &&& s.tusks@.len() == n.tusks@.len()
    &&& forall|i: int|
        0 <= i < n.tusks@.len() ==> tusk_schema_matches(#[trigger] s.tusks@[i], n.tusks@[i])
    &&& s.links@.len() == n.links@.len()
    &&& forall|i: int| 0 <= i < n.links@.len() ==> #[trigger] s.links@[i] == n.links@[i].name
    &&& s.has_subcommand == (n.tusks@.len() > 0 || n.childs@.len() > 0 || n.links@.len() > 0)
    &&& s.allow_external_subcommands == n.allow_external_subcommands
    &&& all_schema_matches(s.subcommands@, n.childs@)
}

pub open spec fn all_schema_matches(ss: Seq<CommandSchema>, ns: Seq<TusksNode>) -> bool
    decreases ns,
{
    &&& ss.len() == ns.len()
    &&& ns.len() > 0 ==> all_schema_matches(
        ss.subrange(0, ss.len() - 1),
        ns.subrange(0, ns.len() - 1),
    ) && schema_matches(ss[ss.len() - 1], ns[ns.len() - 1])
}

pub proof fn lemma_all_schema_matches_index(ss: Seq<CommandSchema>, ns: Seq<TusksNode>, i: int)
    requires
        all_schema_matches(ss, ns),
        0 <= i < ns.len(),
    ensures
        schema_matches(ss[i], ns[i]),
    decreases ns.len(),
{
    if i < ns.len() - 1 {
        lemma_all_schema_matches_index(
            ss.subrange(0, ss.len() - 1),
            ns.subrange(0, ns.len() - 1),
            i,
        );
    }
}

fn copy_opt(s: &Option<String>) -> (r: Option<String>)
    ensures
        r == *s,
{
    match s {
        Some(x) => Some(x.clone()),
        None => None,
    }
}

impl Argument {
    /// The parser's declaration of this argument; `rank` is its position
    /// among the positional arguments of its alternative.
    pub fn build_arg(&self, rank: usize) -> (r: ArgDecl)
        ensures
            decl_matches(r, *self, rank as nat),
    {
        let flag = self.flag;
        let possible_values = if flag {
            None
        } else {
            match &self.arg_enum {
                Some(v) => Some(copy_strings(v)),
                None => None,
            }
        };
        ArgDecl {
            id: self.name.clone(),
            long: if self.positional {
                None
            } else {
                Some(self.name.clone())
            },
            index: if self.positional {
                Some(rank)
            } else {
                None
            },
            is_flag: flag,
            required: !flag && self.default.is_none() && !self.optional,
            default: if flag {
                None
            } else {
                copy_opt(&self.default)
            },
            num_args: if flag {
                None
            } else {
                self.count
            },
            possible_values,
            validator: if flag {
                None
            } else {
                copy_opt(&self.validator)
            },
            short: self.short,
            help: copy_opt(&self.help),
            hidden: self.hidden,
            value_hint: self.value_hint,
            value_type: self.type_.clone(),
        }
    }
}

/// Appending one argument and its declaration keeps the lists matched.
proof fn lemma_decls_push(ds: Seq<ArgDecl>, args: Seq<Argument>, d: ArgDecl, a: Argument)
    requires
        decls_match(ds, args),
        decl_matches(d, a, positional_count(args.push(a))),
    ensures
        decls_match(ds.push(d), args.push(a)),
{
    let args2 = args.push(a);
    assert forall|j: int| 0 <= j < args2.len() implies decl_matches(
        #[trigger] ds.push(d)[j],
        args2[j],
        positional_count(args2.take(j + 1)),
    ) by {
        if j < args.len() {
            assert(args2.take(j + 1) =~= args.take(j + 1));
        } else {
            assert(args2.take(j + 1) =~= args2);
        }
    }
}

/// The declarations of a list of arguments.
fn build_decls_of_tusk(t: &Tusk) -> (r: Vec<ArgDecl>)
    ensures
        decls_match(r@, t.args()),
{
    let n = t.argument_count();
    let ghost args = t.args();
    let mut out: Vec<ArgDecl> = Vec::new();
    let mut rank: usize = 0;
    let mut j: usize = 0;
    assert(args.take(0) =~= Seq::<Argument>::empty());
    while j < n
        invariant
            n == t.entries().len(),
            args == t.args(),
            args.len() == n,
            j <= n,
            rank <= j,
            rank == positional_count(args.take(j as int)),
            decls_match(out@, args.take(j as int)),
        decreases n - j,
    {
        let a = t.argument_at(j);
        assert(*a == args[j as int]);
        proof {
            assert(args.take(j as int + 1) =~= args.take(j as int).push(args[j as int]));
            assert(args.take(j as int + 1).drop_last() =~= args.take(j as int));
        }
        if a.positional {
            rank = rank + 1;
        }
        let d = a.build_arg(rank);
        proof {
            lemma_decls_push(out@, args.take(j as int), d, *a);
        }
        out.push(d);
        j = j + 1;
    }
    assert(args.take(n as int) =~= args);
    out
}

fn build_decls_of_fields(fields: &Vec<ParameterField>) -> (r: Vec<ArgDecl>)
    ensures
        decls_match(r@, value_args(fields@)),
{
    let mut out: Vec<ArgDecl> = Vec::new();
    let mut rank: usize = 0;
    let mut i: usize = 0;
    assert(fields@.take(0) =~= Seq::<ParameterField>::empty());
    while i < fields.len()
        invariant
            i <= fields@.len(),
            rank <= i,
            rank == positional_count(value_args(fields@.take(i as int))),
            value_args(fields@.take(i as int)).len() <= i,
            decls_match(out@, value_args(fields@.take(i as int))),
        decreases fields@.len() - i,
    {
        proof {
            assert(fields@.take(i as int + 1).drop_last() =~= fields@.take(i as int));
        }
        if let ParameterField::Value(a) = &fields[i] {
            let ghost prev = value_args(fields@.take(i as int));
            assert(value_args(fields@.take(i as int + 1)) == prev.push(*a));
            assert(prev.push(*a).drop_last() =~= prev);
            if a.positional {
                rank = rank + 1;
            }
            let d = a.build_arg(rank);
            proof {
                lemma_decls_push(out@, prev, d, *a);
            }
            out.push(d);
        }
        i = i + 1;
    }
    assert(fields@.take(fields@.len() as int) =~= fields@);
    out
}

impl Tusk {
    /// The alternative of this operation.
    pub fn build_subcommand(&self) -> (r: TuskSchema)
        ensures
            tusk_schema_matches(r, *self),
    {
        TuskSchema { name: self.name.clone(), args: build_decls_of_tusk(self) }
    }
}

impl TusksNode {
    /// Compiles the scope tree into its grammar.
    pub fn build_cli(&self) -> (r: CommandSchema)
        ensures
            schema_matches(r, *self),
        decreases self,
    {
        let args = match &self.parameters {
            Some(p) => build_decls_of_fields(&p.fields),
            None => {
                assert(value_args(declared_fields(*self)) =~= Seq::<Argument>::empty());
                Vec::new()
            },
        };
        let mut tusks: Vec<TuskSchema> = Vec::new();
        let mut i: usize = 0;
        while i < self.tusks.len()
            invariant
                i <= self.tusks@.len(),
                tusks@.len() == i,
                forall|x: int|
                    0 <= x < i ==> tusk_schema_matches(#[trigger] tusks@[x], self.tusks@[x]),
            decreases self.tusks@.len() - i,
        {
            tusks.push(self.tusks[i].build_subcommand());
            i = i + 1;
        }
        let mut links: Vec<String> = Vec::new();
        let mut l: usize = 0;
        while l < self.links.len()
            invariant
                l <= self.links@.len(),
                links@.len() == l,
                forall|x: int| 0 <= x < l ==> #[trigger] links@[x] == self.links@[x].name,
            decreases self.links@.len() - l,
        {
            links.push(self.links[l].name.clone());
            l = l + 1;
        }
        let mut subs: Vec<CommandSchema> = Vec::new();
        let mut k: usize = 0;
        while k < self.childs.len()
            invariant
                k <= self.childs@.len(),
                all_schema_matches(subs@, self.childs@.subrange(0, k as int)),
            decreases self.childs@.len() - k,
        {
            assert(decreases_to!(self => self.childs));
            assert(decreases_to!(self.childs => self.childs@));
            assert(decreases_to!(self.childs@ => self.childs@[k as int]));
            assert(decreases_to!(*self => self.childs@[k as int]));
            let c = self.childs[k].build_cli();
            let ghost before = subs@;
            subs.push(c);
            proof {
                let pre = self.childs@.subrange(0, k as int + 1);
                assert(pre.subrange(0, k as int) =~= self.childs@.subrange(0, k as int));
                assert(subs@.subrange(0, k as int) =~= before);
            }
            k = k + 1;
        }
        assert(self.childs@.subrange(0, k as int) =~= self.childs@);
        CommandSchema {
            name: self.name.clone(),
            args,
            tusks,
            subcommands: subs,
            links,
            has_subcommand: self.tusks.len() > 0 || self.childs.len() > 0 || self.links.len() > 0,
            allow_external_subcommands: self.allow_external_subcommands,
        }
    }
}

/// The position of the first name equal to `name`.
pub open spec fn first_name_index(names: Seq<Seq<char>>, name: Seq<char>) -> Option<int>
    decreases names.len(),
{
    if names.len() == 0 {
        None
    } else if names[0] == name {
        Some(0)
    } else {
        match first_name_index(names.drop_first(), name) {
            Some(k) => Some(k + 1),
            None => None,
        }
    }
}

pub proof fn lemma_first_name_index(names: Seq<Seq<char>>, name: Seq<char>)
    ensures
        first_name_index(names, name) matches Some(k) ==> 0 <= k < names.len() && names[k]
            == name && forall|i: int| 0 <= i < k ==> names[i] != name,
        first_name_index(names, name) is None ==> forall|i: int|
            0 <= i < names.len() ==> names[i] != name,
    decreases names.len(),
{
    if names.len() > 0 {
        lemma_first_name_index(names.drop_first(), name);
        assert forall|i: int| 1 <= i < names.len() implies names[i] == names.drop_first()[i
            - 1] by {}
    }
}

pub open spec fn decl_ids(ds: Seq<ArgDecl>) -> Seq<Seq<char>> {
    ds.map_values(|d: ArgDecl| d.id@)
}

pub open spec fn tusk_names(ts: Seq<TuskSchema>) -> Seq<Seq<char>> {
    ts.map_values(|t: TuskSchema| t.name@)
}

pub open spec fn command_names(cs: Seq<CommandSchema>) -> Seq<Seq<char>> {
    cs.map_values(|c: CommandSchema| c.name@)
}

/// Every supplied name is declared.
pub open spec fn inputs_declared(inputs: Seq<Supplied>, ids: Seq<Seq<char>>) -> bool {
    forall|i: int| 0 <= i < inputs.len() ==> id_declared(ids, (#[trigger] inputs[i]).name@)
}

pub open spec fn id_declared(ids: Seq<Seq<char>>, name: Seq<char>) -> bool {
    exists|j: int| 0 <= j < ids.len() && ids[j] == name
}

/// The grammar admits the selection: each step names an alternative that
/// exists at its level (the first of that name is taken), and every value
/// found belongs to a declared argument.
pub open spec fn accepts(s: CommandSchema, sel: Selection) -> bool
    decreases sel,
{
    match sel {
        Selection::Tusk { name, inputs } => match first_name_index(tusk_names(s.tusks@), name@) {
            Some(i) => inputs_declared(inputs@, decl_ids(s.tusks@[i].args@)),
            None => false,
        },
        Selection::Scope { name, inputs, sub } => match first_name_index(
            command_names(s.subcommands@),
            name@,
        ) {
            Some(i) => inputs_declared(inputs@, decl_ids(s.subcommands@[i].args@)) && match sub {
                Some(b) => accepts(s.subcommands@[i], *b),
                None => true,
            },
            None => false,
        },
        Selection::Link { alias, rest } => exists|l: int|
            0 <= l < s.links@.len() && (#[trigger] s.links@[l])@ == alias@,
    }
}

proof fn lemma_same_decl_ids(d1: Seq<ArgDecl>, d2: Seq<ArgDecl>, args: Seq<Argument>)
    requires
        decls_match(d1, args),
        decls_match(d2, args),
    ensures
        decl_ids(d1) == decl_ids(d2),
{
    assert forall|j: int| 0 <= j < d1.len() implies decl_ids(d1)[j] == decl_ids(d2)[j] by {
        assert(decl_matches(d1[j], args[j], positional_count(args.take(j + 1))));
        assert(decl_matches(d2[j], args[j], positional_count(args.take(j + 1))));
    }
    assert(decl_ids(d1) =~= decl_ids(d2));
}

/// Two grammars compiled from the same scope tree admit exactly the same
/// selections.
pub proof fn lemma_compile_idempotent(
    n: TusksNode,
    s1: CommandSchema,
    s2: CommandSchema,
    sel: Selection,
)
    requires
        schema_matches(s1, n),
        schema_matches(s2, n),
    ensures
        accepts(s1, sel) == accepts(s2, sel),
    decreases sel,
{
    match sel {
        Selection::Tusk { name, inputs } => {
            assert forall|i: int| 0 <= i < s1.tusks@.len() implies tusk_names(s1.tusks@)[i]
                == tusk_names(s2.tusks@)[i] by {
                assert(tusk_schema_matches(s1.tusks@[i], n.tusks@[i]));
                assert(tusk_schema_matches(s2.tusks@[i], n.tusks@[i]));
            }
            assert(tusk_names(s1.tusks@) =~= tusk_names(s2.tusks@));
            lemma_first_name_index(tusk_names(s1.tusks@), name@);
            if let Some(i) = first_name_index(tusk_names(s1.tusks@), name@) {
                assert(tusk_schema_matches(s1.tusks@[i], n.tusks@[i]));
                assert(tusk_schema_matches(s2.tusks@[i], n.tusks@[i]));
                lemma_same_decl_ids(s1.tusks@[i].args@, s2.tusks@[i].args@, n.tusks@[i].args());
            }
        },
        Selection::Scope { name, inputs, sub } => {
            assert forall|i: int| 0 <= i < s1.subcommands@.len() implies command_names(
                s1.subcommands@,
            )[i] == command_names(s2.subcommands@)[i] by {
                lemma_all_schema_matches_index(s1.subcommands@, n.childs@, i);
                lemma_all_schema_matches_index(s2.subcommands@, n.childs@, i);
            }
            assert(command_names(s1.subcommands@) =~= command_names(s2.subcommands@));
            lemma_first_name_index(command_names(s1.subcommands@), name@);
            if let Some(i) = first_name_index(command_names(s1.subcommands@), name@) {
                lemma_all_schema_matches_index(s1.subcommands@, n.childs@, i);
                lemma_all_schema_matches_index(s2.subcommands@, n.childs@, i);
                let c = n.childs@[i];
                lemma_same_decl_ids(
                    s1.subcommands@[i].args@,
                    s2.subcommands@[i].args@,
                    value_args(declared_fields(c)),
                );
                if let Some(b) = sub {
                    lemma_compile_idempotent(c, s1.subcommands@[i], s2.subcommands@[i], *b);
                }
            }
        },
        Selection::Link { alias, rest } => {
            if accepts(s1, sel) {
                let l = choose|l: int| 0 <= l < s1.links@.len() && (#[trigger] s1.links@[l])@ == alias@;
                assert(s2.links@[l] == n.links@[l].name);
            }
            if accepts(s2, sel) {
                let l = choose|l: int| 0 <= l < s2.links@.len() && (#[trigger] s2.links@[l])@ == alias@;
                assert(s1.links@[l] == n.links@[l].name);
            }
        },
    }
}

fn declared(ds: &Vec<ArgDecl>, name: &String) -> (r: bool)
    ensures
        r == id_declared(decl_ids(ds@), name@),
{
    let mut j: usize = 0;
    while j < ds.len()
        invariant
            j <= ds@.len(),
            forall|x: int| 0 <= x < j ==> decl_ids(ds@)[x] != name@,
        decreases ds@.len() - j,
    {
        if same_text(ds[j].id.as_str(), name.as_str()) {
            assert(decl_ids(ds@)[j as int] == name@);
            return true;
        }
        j = j + 1;
    }
    false
}

fn all_declared(inputs: &Vec<Supplied>, ds: &Vec<ArgDecl>) -> (r: bool)
    ensures
        r == inputs_declared(inputs@, decl_ids(ds@)),
{
    let mut i: usize = 0;
    while i < inputs.len()
        invariant
            i <= inputs@.len(),
            forall|x: int| 0 <= x < i ==> id_declared(decl_ids(ds@), (#[trigger] inputs@[x]).name@),
        decreases inputs@.len() - i,
    {
        if !declared(ds, &inputs[i].name) {
            return false;
        }
        i = i + 1;
    }
    true
}

fn tusk_position(ts: &Vec<TuskSchema>, name: &String) -> (r: Option<usize>)
    ensures
        r matches Some(i) ==> first_name_index(tusk_names(ts@), name@) == Some(i as int) && i
            < ts@.len(),
        r is None ==> first_name_index(tusk_names(ts@), name@) is None,
{
    let mut i: usize = 0;
    while i < ts.len()
        invariant
            i <= ts@.len(),
            forall|x: int| 0 <= x < i ==> tusk_names(ts@)[x] != name@,
        decreases ts@.len() - i,
    {
        if same_text(ts[i].name.as_str(), name.as_str()) {
            assert(tusk_names(ts@)[i as int] == name@);
            proof {
                lemma_first_name_index(tusk_names(ts@), name@);
            }
            return Some(i);
        }
        i = i + 1;
    }
    proof {
        lemma_first_name_index(tusk_names(ts@), name@);
    }
    None
}

fn command_position(cs: &Vec<CommandSchema>, name: &String) -> (r: Option<usize>)
    ensures
        r matches Some(i) ==> first_name_index(command_names(cs@), name@) == Some(i as int) && i
            < cs@.len(),
        r is None ==> first_name_index(command_names(cs@), name@) is None,
{
    let mut i: usize = 0;
    while i < cs.len()
        invariant
            i <= cs@.len(),
            forall|x: int| 0 <= x < i ==> command_names(cs@)[x] != name@,
        decreases cs@.len() - i,
    {
        if same_text(cs[i].name.as_str(), name.as_str()) {
            assert(command_names(cs@)[i as int] == name@);
            proof {
                lemma_first_name_index(command_names(cs@), name@);
            }
            return Some(i);
        }
        i = i + 1;
    }
    proof {
        lemma_first_name_index(command_names(cs@), name@);
    }
    None
}

impl CommandSchema {
    /// Whether the grammar admits the selection.
    pub fn accepts(&self, sel: &Selection) -> (r: bool)
        ensures
            r == accepts(*self, *sel),
        decreases sel,
    {
        match sel {
            Selection::Tusk { name, inputs } => match tusk_position(&self.tusks, name) {
                Some(i) => all_declared(inputs, &self.tusks[i].args),
                None => false,
            },
            Selection::Scope { name, inputs, sub } => match command_position(
                &self.subcommands,
                name,
            ) {
                Some(i) => {
                    if !all_declared(inputs, &self.subcommands[i].args) {
                        return false;
                    }
                    match sub {
                        Some(b) => self.subcommands[i].accepts(b),
                        None => true,
                    }
                },
                None => false,
            },
            Selection::Link { alias, rest } => {
                let mut l: usize = 0;
                while l < self.links.len()
                    invariant
                        *sel == (Selection::Link { alias: *alias, rest: *rest }),
                        l <= self.links@.len(),
                        forall|x: int| 0 <= x < l ==> self.links@[x]@ != alias@,
                    decreases self.links@.len() - l,
                {
                    if same_text(self.links[l].as_str(), alias.as_str()) {
                        assert(self.links@[l as int]@ == alias@);
                        return true;
                    }
                    l = l + 1;
                }
                false
            },
        }
    }
}

} // verus!
