//! Scope nodes: the hierarchy of scopes with their parameter scopes,
//! operations, child scopes and external links.
use vstd::prelude::*;
use crate::argument::Argument;
use crate::error::SchemaError;
use crate::text::copy_strings;
use crate::tusk::Tusk;

verus! {

/// One field of a parameter scope.
pub enum ParameterField {
    /// An ordinary named value, read from the input at the scope's level.
    Value(Argument),
    /// The reserved reference to the enclosing scope's parameters.
    Super,
}

/// The inheritable context of a scope.
pub struct TusksParameters {
    pub fields: Vec<ParameterField>,
}

/// A named splice point for a scope tree compiled elsewhere.
pub struct LinkNode {
    /// The alias under which the foreign tree appears here.
    pub name: String,
}

/// A scope: a node of the command tree.
pub struct TusksNode {
    pub name: String,
    /// Scope names from the root of the tree, the root's own name first.
    pub scope_path: Vec<String>,
    pub parameters: Option<TusksParameters>,
    pub tusks: Vec<Tusk>,
    pub childs: Vec<TusksNode>,
    pub links: Vec<LinkNode>,
    /// Whether unmatched trailing tokens are handed to the default operation.
    pub allow_external_subcommands: bool,
    /// The tree this scope tree is spliced into, when it declares one.
    pub external_parent: Option<LinkNode>,
    /// Set when the node is the root of a foreign tree spliced in here.
    pub is_link: bool,
    pub link_name: Option<String>,
}

/// The number of ancestor back-references among `fields`.
pub open spec fn super_count(fields: Seq<ParameterField>) -> nat
    decreases fields.len(),
{
    if fields.len() == 0 {
        0
    } else {
        super_count(fields.drop_last()) + if fields.last() is Super {
            1nat
        } else {
            0nat
        }
    }
}

pub open spec fn declared_fields(n: TusksNode) -> Seq<ParameterField> {
    match n.parameters {
        Some(p) => p.fields@,
        None => Seq::empty(),
    }
}

/// No scope of the tree declares the back-reference itself.
pub open spec fn declares_no_super(n: TusksNode) -> bool
    decreases n,
{
    &&& super_count(declared_fields(n)) == 0
    &&& all_declare_no_super(n.childs@)
}

pub open spec fn all_declare_no_super(s: Seq<TusksNode>) -> bool
    decreases s,
{
    s.len() > 0 ==> all_declare_no_super(s.subrange(0, s.len() - 1)) && declares_no_super(
        s[s.len() - 1],
    )
}

/// Every scope has parameters; the root's hold no back-reference and every
/// other scope's exactly one.
pub open spec fn scopes_consistent(n: TusksNode, is_root: bool) -> bool
    decreases n,
{
    &&& n.parameters is Some
    &&& super_count(n.parameters->0.fields@) == if is_root {
        0nat
    } else {
        1nat
    }
    &&& all_scopes_consistent(n.childs@)
}

/// Each node of `s` is a consistent non-root scope tree.
pub open spec fn all_scopes_consistent(s: Seq<TusksNode>) -> bool
    decreases s,
{
    s.len() > 0 ==> all_scopes_consistent(s.subrange(0, s.len() - 1)) && scopes_consistent(
        s[s.len() - 1],
        false,
    )
}

/// `m` is `n` with its parameter scopes completed: an empty one where none
/// was declared, and the back-reference appended below the root.
pub open spec fn supplemented(n: TusksNode, m: TusksNode, is_root: bool) -> bool
    decreases n,
{
    &&& m.name == n.name
    &&& m.scope_path == n.scope_path
    &&& m.tusks == n.tusks
    &&& m.links == n.links
    &&& m.allow_external_subcommands == n.allow_external_subcommands
    &&& m.is_link == n.is_link
    &&& m.link_name == n.link_name
    &&& m.external_parent == n.external_parent
    &&& m.parameters is Some
    &&& m.parameters->0.fields@ == if is_root {
        declared_fields(n)
    } else {
        declared_fields(n).push(ParameterField::Super)
    }
    &&& all_supplemented(n.childs@, m.childs@)
}

/// Pairwise `supplemented` below the root.
pub open spec fn all_supplemented(ns: Seq<TusksNode>, ms: Seq<TusksNode>) -> bool
    decreases ns,
{
    &&& ns.len() == ms.len()
    &&& ns.len() > 0 ==> all_supplemented(
        ns.subrange(0, ns.len() - 1),
        ms.subrange(0, ms.len() - 1),
    ) && supplemented(ns[ns.len() - 1], ms[ms.len() - 1], false)
}

fn check_no_super(fields: &Vec<ParameterField>) -> (r: bool)
    ensures
        r == (super_count(fields@) == 0),
{
    let mut i: usize = 0;
    while i < fields.len()
        invariant
            i <= fields@.len(),
            super_count(fields@.take(i as int)) == 0,
        decreases fields@.len() - i,
    {
        proof {
            assert(fields@.take(i as int + 1).drop_last() =~= fields@.take(i as int));
        }
        if let ParameterField::Super = &fields[i] {
            proof {
                lemma_super_count_prefix(fields@, i as int + 1);
            }
            return false;
        }
        i = i + 1;
    }
    assert(fields@.take(fields@.len() as int) =~= fields@);
    true
}

/// A back-reference in a prefix is one in the whole.
pub proof fn lemma_super_count_prefix(s: Seq<ParameterField>, k: int)
    requires
        0 <= k <= s.len(),
    ensures
        super_count(s.take(k)) <= super_count(s),
    decreases s.len() - k,
{
    if k < s.len() {
        lemma_super_count_prefix(s, k + 1);
        assert(s.take(k + 1).drop_last() =~= s.take(k));
    } else {
        assert(s.take(k) =~= s);
    }
}

pub proof fn lemma_all_declare_no_super_index(s: Seq<TusksNode>, i: int)
    requires
        0 <= i < s.len(),
    ensures
        all_declare_no_super(s) ==> declares_no_super(s[i]),
    decreases s.len(),
{
    if i < s.len() - 1 {
        lemma_all_declare_no_super_index(s.subrange(0, s.len() - 1), i);
    }
}

impl TusksNode {
    /// The scope path without the root's own name.
    pub fn relative_module_path(&self) -> (r: Vec<String>)
        ensures
            self.scope_path@.len() == 0 ==> r@.len() == 0,
            self.scope_path@.len() > 0 ==> r@ == self.scope_path@.drop_first(),
    {
        let mut r: Vec<String> = Vec::new();
        let mut i: usize = 1;
        while i < self.scope_path.len()
            invariant
                1 <= i,
                self.scope_path@.len() > 0 ==> i <= self.scope_path@.len(),
                self.scope_path@.len() > 0 ==> r@ == self.scope_path@.subrange(1, i as int),
                self.scope_path@.len() == 0 ==> r@.len() == 0,
            decreases self.scope_path@.len() - i,
        {
            r.push(self.scope_path[i].clone());
            proof {
                assert(self.scope_path@.subrange(1, i as int + 1) =~= self.scope_path@.subrange(
                    1,
                    i as int,
                ).push(self.scope_path@[i as int]));
            }
            i = i + 1;
        }
        proof {
            if self.scope_path@.len() > 0 {
                assert(self.scope_path@.subrange(1, self.scope_path@.len() as int)
                    =~= self.scope_path@.drop_first());
            }
        }
        r
    }

    /// Completes every parameter scope of the tree: a scope without one gets
    /// an empty one, and each scope below the root gets the back-reference
    /// to its parent's parameters. Fails where a scope declares that
    /// reference itself.
    pub fn supplement_parameters(self, is_root: bool) -> (r: Result<TusksNode, SchemaError>)
        ensures
            r is Ok <==> declares_no_super(self),
            r matches Ok(m) ==> supplemented(self, m, is_root),
            r matches Err(e) ==> (e matches SchemaError::SuperFieldNotAllowed { .. }),
        decreases self,
    {
        let ghost orig = self;
        let TusksNode {
            name,
            scope_path,
            parameters,
            tusks,
            childs,
            links,
            allow_external_subcommands,
            external_parent,
            is_link,
            link_name,
        } = self;
        let mut fields = match parameters {
            Some(p) => p.fields,
            None => Vec::new(),
        };
        assert(fields@ == declared_fields(orig));
        if !check_no_super(&fields) {
            return Err(SchemaError::SuperFieldNotAllowed { scope: name });
        }
        if !is_root {
            fields.push(ParameterField::Super);
        }
        let ghost old_childs = childs@;
        let mut rest = childs;
        let total = rest.len();
        let mut done: Vec<TusksNode> = Vec::new();
        let mut k: usize = 0;
        while rest.len() > 0
            invariant
                orig == self,
                old_childs == orig.childs@,
                old_childs.len() == total,
                k + rest@.len() == old_childs.len(),
                done@.len() == k,
                rest@ == old_childs.subrange(k as int, old_childs.len() as int),
                all_declare_no_super(old_childs.subrange(0, k as int)),
                all_supplemented(old_childs.subrange(0, k as int), done@),
            decreases rest@.len(),
        {
            assert(k < old_childs.len());
            let ghost before = rest@;
            let c = rest.remove(0);
            assert(c == before[0]);
            assert(c == orig.childs@[k as int]);
            assert(decreases_to!(orig => orig.childs));
            assert(decreases_to!(orig.childs => orig.childs@));
            assert(decreases_to!(orig.childs@ => orig.childs@[k as int]));
            assert(decreases_to!(orig => orig.childs@[k as int]));
            match c.supplement_parameters(false) {
                Ok(m) => {
                    let ghost before_done = done@;
                    done.push(m);
                    proof {
                        let pre = old_childs.subrange(0, k as int + 1);
                        assert(pre.subrange(0, k as int) =~= old_childs.subrange(0, k as int));
                        assert(done@.subrange(0, k as int) =~= before_done);
                    }
                },
                Err(e) => {
                    proof {
                        lemma_all_declare_no_super_index(old_childs, k as int);
                    }
                    return Err(e);
                },
            }
            proof {
                assert(rest@ =~= old_childs.subrange(k as int + 1, old_childs.len() as int));
            }
            assert(done@.len() == k + 1);
            k = k + 1;
        }
        assert(old_childs.subrange(0, k as int) =~= old_childs);
        let m = TusksNode {
            name,
            scope_path,
            parameters: Some(TusksParameters { fields }),
            tusks,
            childs: done,
            links,
            allow_external_subcommands,
            external_parent,
            is_link,
            link_name,
        };
        Ok(m)
    }
}

/// Completing the parameter scopes of a tree in which no scope declares the
/// back-reference itself gives a tree whose root scope has no ancestor
/// back-reference and whose every other scope has exactly one.
pub proof fn lemma_root_iff_no_ancestor(n: TusksNode, m: TusksNode, is_root: bool)
    requires
        declares_no_super(n),
        supplemented(n, m, is_root),
    ensures
        scopes_consistent(m, is_root),
        super_count(m.parameters->0.fields@) == 0 <==> is_root,
    decreases n,
{
    let d = declared_fields(n);
    assert(d.push(ParameterField::Super).drop_last() =~= d);
    lemma_all_root_iff_no_ancestor(n.childs@, m.childs@);
}

pub proof fn lemma_all_root_iff_no_ancestor(ns: Seq<TusksNode>, ms: Seq<TusksNode>)
    requires
        all_declare_no_super(ns),
        all_supplemented(ns, ms),
    ensures
        all_scopes_consistent(ms),
    decreases ns,
{
    if ns.len() > 0 {
        lemma_all_root_iff_no_ancestor(
            ns.subrange(0, ns.len() - 1),
            ms.subrange(0, ms.len() - 1),
        );
        lemma_root_iff_no_ancestor(ns[ns.len() - 1], ms[ms.len() - 1], false);
    }
}

/// Every value field of a parameter scope is a consistent descriptor.
pub open spec fn fields_consistent(fields: Seq<ParameterField>) -> bool {
    forall|i: int|
        0 <= i < fields.len() ==> (#[trigger] fields[i] matches ParameterField::Value(a)
            ==> a.is_consistent())
}

/// The number of operations marked as default.
pub open spec fn default_count(tusks: Seq<Tusk>) -> nat
    decreases tusks.len(),
{
    if tusks.len() == 0 {
        0
    } else {
        default_count(tusks.drop_last()) + if tusks.last().is_default {
            1nat
        } else {
            0nat
        }
    }
}

/// A default operation takes no arguments of its own, and takes the
/// trailing tokens only where the scope lets them through.
pub open spec fn default_signature_ok(t: Tusk, allow_external: bool) -> bool {
    t.is_default ==> t.entries().len() == 0 && (t.takes_external_args ==> allow_external)
}

pub open spec fn tusk_valid(t: Tusk, allow_external: bool) -> bool {
    &&& forall|j: int| 0 <= j < t.entries().len() ==> (#[trigger] t.entries()[j]).1.is_consistent()
    &&& default_signature_ok(t, allow_external)
}

/// The scope itself, apart from its children, is well formed.
pub open spec fn node_locally_valid(n: TusksNode) -> bool {
    &&& fields_consistent(declared_fields(n))
    &&& forall|i: int|
        0 <= i < n.tusks@.len() ==> tusk_valid(#[trigger] n.tusks@[i], n.allow_external_subcommands)
    &&& default_count(n.tusks@) <= 1
}

/// Every scope of the tree is well formed.
pub open spec fn tree_valid(n: TusksNode) -> bool
    decreases n,
{
    &&& node_locally_valid(n)
    &&& all_tree_valid(n.childs@)
}

pub open spec fn all_tree_valid(s: Seq<TusksNode>) -> bool
    decreases s,
{
    s.len() > 0 ==> all_tree_valid(s.subrange(0, s.len() - 1)) && tree_valid(s[s.len() - 1])
}

pub proof fn lemma_all_tree_valid_index(s: Seq<TusksNode>, i: int)
    requires
        0 <= i < s.len(),
        all_tree_valid(s),
    ensures
        tree_valid(s[i]),
    decreases s.len(),
{
    if i < s.len() - 1 {
        lemma_all_tree_valid_index(s.subrange(0, s.len() - 1), i);
    }
}

fn check_fields(fields: &Vec<ParameterField>) -> (r: Result<(), SchemaError>)
    ensures
        r is Ok <==> fields_consistent(fields@),
{
    let mut i: usize = 0;
    while i < fields.len()
        invariant
            i <= fields@.len(),
            forall|j: int|
                0 <= j < i ==> (#[trigger] fields@[j] matches ParameterField::Value(a)
                    ==> a.is_consistent()),
        decreases fields@.len() - i,
    {
        if let ParameterField::Value(a) = &fields[i] {
            a.check()?;
        }
        i = i + 1;
    }
    Ok(())
}

fn check_tusk(t: &Tusk, allow_external: bool) -> (r: Result<(), SchemaError>)
    ensures
        r is Ok <==> tusk_valid(*t, allow_external),
{
    let n = t.argument_count();
    let mut j: usize = 0;
    while j < n
        invariant
            n == t.entries().len(),
            j <= n,
            forall|x: int| 0 <= x < j ==> (#[trigger] t.entries()[x]).1.is_consistent(),
        decreases n - j,
    {
        t.argument_at(j).check()?;
        j = j + 1;
    }
    if t.is_default && (n > 0 || (t.takes_external_args && !allow_external)) {
        return Err(SchemaError::InvalidDefaultSignature { tusk: t.name.clone() });
    }
    Ok(())
}

impl TusksNode {
    /// Checks the whole tree: descriptors are consistent, each scope has at
    /// most one default operation, and defaults take no arguments.
    pub fn check(&self) -> (r: Result<(), SchemaError>)
        ensures
            r is Ok <==> tree_valid(*self),
        decreases self,
    {
        if let Some(p) = &self.parameters {
            check_fields(&p.fields)?;
        } else {
            assert(declared_fields(*self) =~= Seq::<ParameterField>::empty());
        }
        let mut seen_default = false;
        let mut i: usize = 0;
        while i < self.tusks.len()
            invariant
                i <= self.tusks@.len(),
                forall|x: int|
                    0 <= x < i ==> tusk_valid(
                        #[trigger] self.tusks@[x],
                        self.allow_external_subcommands,
                    ),
                default_count(self.tusks@.take(i as int)) == if seen_default {
                    1nat
                } else {
                    0nat
                },
            decreases self.tusks@.len() - i,
        {
            let t = &self.tusks[i];
            check_tusk(t, self.allow_external_subcommands)?;
            proof {
                assert(self.tusks@.take(i as int + 1).drop_last() =~= self.tusks@.take(i as int));
            }
            if t.is_default {
                if seen_default {
                    proof {
                        lemma_default_count_prefix(self.tusks@, i as int + 1);
                    }
                    return Err(
                        SchemaError::DuplicateDefault {
                            scope: self.name.clone(),
                            tusk: t.name.clone(),
                        },
                    );
                }
                seen_default = true;
            }
            i = i + 1;
        }
        assert(self.tusks@.take(self.tusks@.len() as int) =~= self.tusks@);
        let mut k: usize = 0;
        while k < self.childs.len()
            invariant
                k <= self.childs@.len(),
                all_tree_valid(self.childs@.subrange(0, k as int)),
            decreases self.childs@.len() - k,
        {
            assert(decreases_to!(self => self.childs));
            assert(decreases_to!(self.childs => self.childs@));
            assert(decreases_to!(self.childs@ => self.childs@[k as int]));
            assert(decreases_to!(*self => self.childs@[k as int]));
            let c = &self.childs[k];
            if let Err(e) = c.check() {
                proof {
                    if all_tree_valid(self.childs@) {
                        lemma_all_tree_valid_index(self.childs@, k as int);
                    }
                }
                return Err(e);
            }
            proof {
                let pre = self.childs@.subrange(0, k as int + 1);
                assert(pre.subrange(0, k as int) =~= self.childs@.subrange(0, k as int));
            }
            k = k + 1;
        }
        assert(self.childs@.subrange(0, k as int) =~= self.childs@);
        Ok(())
    }
}

pub proof fn lemma_default_count_prefix(s: Seq<Tusk>, k: int)
    requires
        0 <= k <= s.len(),
    ensures
        default_count(s.take(k)) <= default_count(s),
    decreases s.len() - k,
{
    if k < s.len() {
        lemma_default_count_prefix(s, k + 1);
        assert(s.take(k + 1).drop_last() =~= s.take(k));
    } else {
        assert(s.take(k) =~= s);
    }
}

/// The scope reached from `n` by following child positions.
pub open spec fn node_at(n: TusksNode, path: Seq<int>) -> Option<TusksNode>
    decreases path.len(),
{
    if path.len() == 0 {
        Some(n)
    } else if 0 <= path[0] < n.childs@.len() {
        node_at(n.childs@[path[0]], path.drop_first())
    } else {
        None
    }
}

/// In a tree that passes `check`, every argument of every operation, and
/// every value field of every parameter scope, is unambiguous: a default
/// excludes optionality, and a flag has neither a multiplicity nor a default.
pub proof fn lemma_checked_arguments_consistent(root: TusksNode, path: Seq<int>)
    requires
        tree_valid(root),
        node_at(root, path) is Some,
    ensures
        ({
            let m = node_at(root, path)->0;
            &&& forall|i: int, j: int|
                0 <= i < m.tusks@.len() && 0 <= j < m.tusks@[i].entries().len() ==> {
                    let a = (#[trigger] m.tusks@[i].entries()[j]).1;
                    &&& a.default.is_some() ==> !a.optional
                    &&& a.flag ==> a.count.is_none() && a.default.is_none()
                }
            &&& forall|f: int|
                0 <= f < declared_fields(m).len() ==> (#[trigger] declared_fields(m)[f] matches ParameterField::Value(a) ==> {
                    &&& a.default.is_some() ==> !a.optional
                    &&& a.flag ==> a.count.is_none() && a.default.is_none()
                })
        }),
    decreases path.len(),
{
    if path.len() == 0 {
        let m = root;
        assert forall|i: int, j: int|
            0 <= i < m.tusks@.len() && 0 <= j < m.tusks@[i].entries().len() implies {
                let a = (#[trigger] m.tusks@[i].entries()[j]).1;
                &&& a.default.is_some() ==> !a.optional
                &&& a.flag ==> a.count.is_none() && a.default.is_none()
            } by {
            assert(tusk_valid(m.tusks@[i], m.allow_external_subcommands));
        }
    } else {
        lemma_all_tree_valid_index(root.childs@, path[0]);
        lemma_checked_arguments_consistent(root.childs@[path[0]], path.drop_first());
    }
}

/// The links of one scope, each with the scope's path.
pub open spec fn local_links(n: TusksNode) -> Seq<(Seq<String>, String)> {
    n.links@.map_values(|l: LinkNode| (n.scope_path@, l.name))
}

/// The links of a tree in depth-first order: a scope's own links, then
/// those of each child in turn.
pub open spec fn all_links(n: TusksNode) -> Seq<(Seq<String>, String)>
    decreases n,
{
    local_links(n) + links_of_all(n.childs@)
}

pub open spec fn links_of_all(s: Seq<TusksNode>) -> Seq<(Seq<String>, String)>
    decreases s,
{
    if s.len() == 0 {
        Seq::empty()
    } else {
        links_of_all(s.subrange(0, s.len() - 1)) + all_links(s[s.len() - 1])
    }
}

/// A list of (scope path, name) pairs as values.
pub open spec fn link_list_view(v: Seq<(Vec<String>, String)>) -> Seq<(Seq<String>, String)> {
    v.map_values(|p: (Vec<String>, String)| (p.0@, p.1))
}

impl TusksNode {
    fn collect_links(&self, out: &mut Vec<(Vec<String>, String)>)
        ensures
            link_list_view(final(out)@) == link_list_view(old(out)@) + all_links(*self),
        decreases self,
    {
        let ghost start = link_list_view(out@);
        let mut i: usize = 0;
        while i < self.links.len()
            invariant
                i <= self.links@.len(),
                link_list_view(out@) == start + local_links(*self).take(i as int),
            decreases self.links@.len() - i,
        {
            let path = copy_strings(&self.scope_path);
            let ghost before = out@;
            out.push((path, self.links[i].name.clone()));
            proof {
                assert(link_list_view(out@) =~= link_list_view(before).push(
                    (self.scope_path@, self.links@[i as int].name),
                ));
                assert(local_links(*self).take(i as int + 1) =~= local_links(*self).take(
                    i as int,
                ).push(local_links(*self)[i as int]));
            }
            i = i + 1;
        }
        assert(local_links(*self).take(i as int) =~= local_links(*self));
        let mut k: usize = 0;
        while k < self.childs.len()
            invariant
                k <= self.childs@.len(),
                link_list_view(out@) == start + local_links(*self) + links_of_all(
                    self.childs@.subrange(0, k as int),
                ),
            decreases self.childs@.len() - k,
        {
            assert(decreases_to!(self => self.childs));
            assert(decreases_to!(self.childs => self.childs@));
            assert(decreases_to!(self.childs@ => self.childs@[k as int]));
            assert(decreases_to!(*self => self.childs@[k as int]));
            self.childs[k].collect_links(out);
            proof {
                let pre = self.childs@.subrange(0, k as int + 1);
                assert(pre.subrange(0, k as int) =~= self.childs@.subrange(0, k as int));
                assert(link_list_view(out@) =~= start + local_links(*self) + links_of_all(pre));
            }
            k = k + 1;
        }
        assert(self.childs@.subrange(0, k as int) =~= self.childs@);
        assert(link_list_view(out@) =~= start + all_links(*self));
    }

    /// Every link of the tree with the path of the scope that declares it,
    /// in depth-first order.
    pub fn iter_all_links(&self) -> (r: Vec<(Vec<String>, String)>)
        ensures
            link_list_view(r@) == all_links(*self),
    {
        let mut out: Vec<(Vec<String>, String)> = Vec::new();
        self.collect_links(&mut out);
        assert(link_list_view(Seq::<(Vec<String>, String)>::empty()) =~= Seq::<(Seq<String>, String)>::empty());
        assert(Seq::<(Seq<String>, String)>::empty() + all_links(*self) =~= all_links(*self));
        out
    }
}

/// The operations of one scope, each with the scope's path.
pub open spec fn local_tusks(n: TusksNode) -> Seq<(Seq<String>, String)> {
    n.tusks@.map_values(|t: Tusk| (n.scope_path@, t.name))
}

/// The operations of a tree in depth-first order: a scope's own, then
/// those of each child in turn.
pub open spec fn all_tusks(n: TusksNode) -> Seq<(Seq<String>, String)>
    decreases n,
{
    local_tusks(n) + tusks_of_all(n.childs@)
}

pub open spec fn tusks_of_all(s: Seq<TusksNode>) -> Seq<(Seq<String>, String)>
    decreases s,
{
    if s.len() == 0 {
        Seq::empty()
    } else {
        tusks_of_all(s.subrange(0, s.len() - 1)) + all_tusks(s[s.len() - 1])
    }
}

impl TusksNode {
    fn collect_tusks(&self, out: &mut Vec<(Vec<String>, String)>)
        ensures
            link_list_view(final(out)@) == link_list_view(old(out)@) + all_tusks(*self),
        decreases self,
    {
        let ghost start = link_list_view(out@);
        let mut i: usize = 0;
        while i < self.tusks.len()
            invariant
                i <= self.tusks@.len(),
                link_list_view(out@) == start + local_tusks(*self).take(i as int),
            decreases self.tusks@.len() - i,
        {
            let path = copy_strings(&self.scope_path);
            let ghost before = out@;
            out.push((path, self.tusks[i].name.clone()));
            proof {
                assert(link_list_view(out@) =~= link_list_view(before).push(
                    (self.scope_path@, self.tusks@[i as int].name),
                ));
                assert(local_tusks(*self).take(i as int + 1) =~= local_tusks(*self).take(
                    i as int,
                ).push(local_tusks(*self)[i as int]));
            }
            i = i + 1;
        }
        assert(local_tusks(*self).take(i as int) =~= local_tusks(*self));
        let mut k: usize = 0;
        while k < self.childs.len()
            invariant
                k <= self.childs@.len(),
                link_list_view(out@) == start + local_tusks(*self) + tusks_of_all(
                    self.childs@.subrange(0, k as int),
                ),
            decreases self.childs@.len() - k,
        {
            assert(decreases_to!(self => self.childs));
            assert(decreases_to!(self.childs => self.childs@));
            assert(decreases_to!(self.childs@ => self.childs@[k as int]));
            assert(decreases_to!(*self => self.childs@[k as int]));
            self.childs[k].collect_tusks(out);
            proof {
                let pre = self.childs@.subrange(0, k as int + 1);
                assert(pre.subrange(0, k as int) =~= self.childs@.subrange(0, k as int));
                assert(link_list_view(out@) =~= start + local_tusks(*self) + tusks_of_all(pre));
            }
            k = k + 1;
        }
        assert(self.childs@.subrange(0, k as int) =~= self.childs@);
        assert(link_list_view(out@) =~= start + all_tusks(*self));
    }

    /// Every operation of the tree with the path of the scope that declares
    /// it, in depth-first order.
    pub fn iter_all_tusks(&self) -> (r: Vec<(Vec<String>, String)>)
        ensures
            link_list_view(r@) == all_tusks(*self),
    {
        let mut out: Vec<(Vec<String>, String)> = Vec::new();
        self.collect_tusks(&mut out);
        assert(link_list_view(Seq::<(Vec<String>, String)>::empty()) =~= Seq::<(Seq<String>, String)>::empty());
        assert(Seq::<(Seq<String>, String)>::empty() + all_tusks(*self) =~= all_tusks(*self));
        out
    }
}

impl TusksNode {
    /// Splices the root of a tree compiled elsewhere in as the last child,
    /// marked as the target of the link `alias`.
    pub fn splice_link(&mut self, linked: TusksNode, alias: String)
        ensures
            final(self).childs@ == old(self).childs@.push(
                TusksNode { is_link: true, link_name: Some(alias), ..linked },
            ),
            final(self).name == old(self).name,
            final(self).tusks == old(self).tusks,
            final(self).links == old(self).links,
            final(self).parameters == old(self).parameters,
    {
        let mut node = linked;
        node.is_link = true;
        node.link_name = Some(alias);
        self.childs.push(node);
    }
}

} // verus!
