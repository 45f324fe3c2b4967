use crate::text::{str_eq, string_of};
use crate::typed_annotation::TypedAnnotations;
use crate::typed_type::{
    builtin_names, builtin_values, duplicate_strings_pub, Package, TypedNamedValueType, TypedPackage, TypedType,
};
use std::collections::hash_map::Entry;
use std::collections::HashMap;
use vstd::prelude::*;

verus! {

broadcast use vstd::std_specs::hash::group_hash_axioms;

/// Identifies a declaration of the arena; `DeclarationId(0)` is the root
/// namespace.
#[derive(Copy, Clone, PartialEq, Eq, Structural, Debug, Hash)]
pub struct DeclarationId(pub usize);

impl DeclarationId {
    /// The root namespace.
    pub fn root() -> (r: Self)
        ensures
            r == DeclarationId(0),
    {
        DeclarationId(0)
    }
}

/// Hands out declaration ids, each one above the last.
#[derive(Debug, Clone)]
pub struct DeclarationIdGenerator {
    pub latest: usize,
}

impl DeclarationIdGenerator {
    pub fn new(initial: usize) -> (r: Self)
        ensures
            r.latest == initial,
    {
        DeclarationIdGenerator { latest: initial }
    }

    pub fn next(&mut self) -> (r: DeclarationId)
        requires
            old(self).latest < usize::MAX,
        ensures
            final(self).latest == old(self).latest + 1,
            r == DeclarationId(final(self).latest),
    {
        self.latest = self.latest + 1;
        DeclarationId(self.latest)
    }
}

/// A namespace, knowing the namespace that holds it.
#[derive(Debug, Default, Clone, PartialEq, Eq, Structural)]
pub struct Namespace {
    pub parent: Option<DeclarationId>,
}

impl Namespace {
    /// The root namespace, held by none.
    pub fn root() -> (r: Self)
        ensures
            r.parent is None,
    {
        Namespace { parent: None }
    }

    pub fn new(parent: DeclarationId) -> (r: Self)
        ensures
            r.parent == Some(parent),
    {
        Namespace { parent: Some(parent) }
    }

    pub fn parent(&self) -> (r: Option<DeclarationId>)
        ensures
            r == self.parent,
    {
        self.parent
    }
}

/// What kind of type a declared type is.
#[derive(Debug, PartialEq, Eq, Structural, Clone, Copy)]
pub enum StructKind {
    Struct,
    Protocol,
    TypeParameter,
}

impl StructKind {
    pub fn is_struct(&self) -> (r: bool)
        ensures
            r == (*self is Struct),
    {
        matches!(self, StructKind::Struct)
    }

    pub fn is_protocol(&self) -> (r: bool)
        ensures
            r == (*self is Protocol),
    {
        matches!(self, StructKind::Protocol)
    }

    pub fn is_type_parameter(&self) -> (r: bool)
        ensures
            r == (*self is TypeParameter),
    {
        matches!(self, StructKind::TypeParameter)
    }
}

/// A declared type: its own type, its namespace, its kind and its members.
#[derive(Debug, PartialEq, Eq)]
pub struct ResolverStruct {
    pub self_: TypedType,
    pub namespace: Vec<String>,
    pub kind: StructKind,
    pub stored_properties: Vec<(String, TypedType)>,
    pub computed_properties: Vec<(String, TypedType)>,
    pub member_functions: Vec<(String, TypedType)>,
    pub conformed_protocols: Vec<String>,
}

/// The type of the first member named `name` in `members`, if any.
pub open spec fn member_lookup(members: Seq<(String, TypedType)>, name: Seq<char>) -> Option<TypedType>
    decreases members.len(),
{
    if members.len() == 0 {
        None
    } else if members[0].0@ == name {
        Some(members[0].1)
    } else {
        member_lookup(members.drop_first(), name)
    }
}

fn find_member<'a>(members: &'a Vec<(String, TypedType)>, name: &str) -> (r: Option<&'a TypedType>)
    ensures
        r matches Some(t) ==> member_lookup(members@, name@) == Some(*t),
        r is None ==> member_lookup(members@, name@) is None,
{
    let mut i: usize = 0;
    assert(members@.skip(0) =~= members@);
    while i < members.len()
        invariant
            i <= members@.len(),
            member_lookup(members@, name@) == member_lookup(members@.skip(i as int), name@),
        decreases members@.len() - i,
    {
        assert(members@.skip(i as int).drop_first() =~= members@.skip(i + 1));
        if str_eq(members[i].0.as_str(), name) {
            assert(members@.skip(i as int)[0] == members@[i as int]);
            return Some(&members[i].1);
        }
        i = i + 1;
    }
    assert(members@.skip(i as int).len() == 0);
    None
}

impl ResolverStruct {
    /// A type with no members yet, in the namespace of its resolved package.
    pub fn new(self_: TypedType, kind: StructKind) -> (r: Self)
        requires
            self_ is Value,
            self_->Value_0.package is Resolved,
        ensures
            r.self_ == self_,
            r.kind == kind,
            r.namespace@.map_values(|n: String| n@)
                == self_->Value_0.package->Resolved_0.names@.map_values(|n: String| n@),
            r.stored_properties@.len() == 0,
            r.computed_properties@.len() == 0,
            r.member_functions@.len() == 0,
            r.conformed_protocols@.len() == 0,
    {
        let namespace = match &self_ {
            TypedType::Value(v) => match &v.package {
                TypedPackage::Resolved(p) => duplicate_strings_pub(&p.names),
                TypedPackage::Raw(p) => duplicate_strings_pub(&p.names),
            },
            _ => Vec::new(),
        };
        ResolverStruct {
            self_,
            namespace,
            kind,
            stored_properties: Vec::new(),
            computed_properties: Vec::new(),
            member_functions: Vec::new(),
            conformed_protocols: Vec::new(),
        }
    }

    /// The type of the member `name`: a stored property, else a computed
    /// property, else a member function.
    pub fn get_instance_member_type(&self, name: &str) -> (r: Option<&TypedType>)
        ensures
            r matches Some(t) ==> Some(*t) == (if member_lookup(self.stored_properties@, name@) is Some {
                member_lookup(self.stored_properties@, name@)
            } else if member_lookup(self.computed_properties@, name@) is Some {
                member_lookup(self.computed_properties@, name@)
            } else {
                member_lookup(self.member_functions@, name@)
            }),
            r is None ==> member_lookup(self.stored_properties@, name@) is None
                && member_lookup(self.computed_properties@, name@) is None
                && member_lookup(self.member_functions@, name@) is None,
    {
        if let Some(t) = find_member(&self.stored_properties, name) {
            Some(t)
        } else if let Some(t) = find_member(&self.computed_properties, name) {
            Some(t)
        } else if let Some(t) = find_member(&self.member_functions, name) {
            Some(t)
        } else {
            None
        }
    }

    pub fn is_type_parameter(&self) -> (r: bool)
        ensures
            r == (self.kind is TypeParameter),
    {
        self.kind.is_type_parameter()
    }
}


/// The declarations registered in a namespace under one name.
#[derive(Debug, PartialEq, Eq, Clone)]
pub struct ChildEntry {
    pub name: String,
    pub ids: Vec<DeclarationId>,
}

/// The ids registered under `name` in `children`: those of the first entry
/// with that name.
pub open spec fn find_child(children: Seq<ChildEntry>, name: Seq<char>) -> Option<Seq<DeclarationId>>
    decreases children.len(),
{
    if children.len() == 0 {
        None
    } else if children[0].name@ == name {
        Some(children[0].ids@)
    } else {
        find_child(children.drop_first(), name)
    }
}

/// The ids under a name once `id` has been added to them.
pub open spec fn ids_with(ids: Option<Seq<DeclarationId>>, id: DeclarationId) -> Seq<DeclarationId> {
    match ids {
        None => seq![id],
        Some(s) => if s.contains(id) {
            s
        } else {
            s.push(id)
        },
    }
}

proof fn lemma_find_child_first(s: Seq<ChildEntry>, n: Seq<char>, k: int)
    requires
        0 <= k < s.len(),
        s[k].name@ == n,
        forall|j: int| 0 <= j < k ==> (#[trigger] s[j]).name@ != n,
    ensures
        find_child(s, n) == Some(s[k].ids@),
    decreases k,
{
    if k > 0 {
        lemma_find_child_first(s.drop_first(), n, k - 1);
    }
}

proof fn lemma_find_child_none(s: Seq<ChildEntry>, n: Seq<char>)
    requires
        forall|j: int| 0 <= j < s.len() ==> (#[trigger] s[j]).name@ != n,
    ensures
        find_child(s, n) is None,
    decreases s.len(),
{
    if s.len() > 0 {
        lemma_find_child_none(s.drop_first(), n);
    }
}

proof fn lemma_find_child_in(s: Seq<ChildEntry>, n: Seq<char>)
    requires
        find_child(s, n) is Some,
    ensures
        exists|k: int| 0 <= k < s.len() && (#[trigger] s[k]).name@ == n && find_child(s, n) == Some(s[k].ids@),
    decreases s.len(),
{
    if s[0].name@ != n {
        lemma_find_child_in(s.drop_first(), n);
        let k = choose|k: int| 0 <= k < s.drop_first().len() && (#[trigger] s.drop_first()[k]).name@ == n
            && find_child(s.drop_first(), n) == Some(s.drop_first()[k].ids@);
        assert(s[k + 1] == s.drop_first()[k]);
    }
}

proof fn lemma_find_child_frame(s1: Seq<ChildEntry>, s2: Seq<ChildEntry>, n: Seq<char>)
    requires
        s1.len() == s2.len(),
        forall|j: int| 0 <= j < s1.len() ==> (#[trigger] s1[j]).name@ == s2[j].name@,
        forall|j: int| 0 <= j < s1.len() && (#[trigger] s1[j]).name@ == n ==> s1[j].ids@ == s2[j].ids@,
    ensures
        find_child(s1, n) == find_child(s2, n),
    decreases s1.len(),
{
    if s1.len() > 0 {
        lemma_find_child_frame(s1.drop_first(), s2.drop_first(), n);
    }
}

proof fn lemma_find_child_push(s: Seq<ChildEntry>, e: ChildEntry, n: Seq<char>)
    requires
        e.name@ != n,
    ensures
        find_child(s.push(e), n) == find_child(s, n),
    decreases s.len(),
{
    if s.len() > 0 {
        assert(s.push(e).drop_first() =~= s.drop_first().push(e));
        assert(s.push(e)[0] == s[0]);
        lemma_find_child_push(s.drop_first(), e, n);
    } else {
        assert(s.push(e).drop_first() =~= Seq::<ChildEntry>::empty());
        assert(s.push(e)[0] == e);
        assert(find_child(s.push(e).drop_first(), n) is None);
    }
}

/// Whether `v` holds `id`.
fn ids_contain(v: &Vec<DeclarationId>, id: DeclarationId) -> (r: bool)
    ensures
        r == v@.contains(id),
{
    let mut i: usize = 0;
    while i < v.len()
        invariant
            i <= v@.len(),
            forall|j: int| 0 <= j < i ==> v@[j] != id,
        decreases v@.len() - i,
    {
        if v[i] == id {
            return true;
        }
        i = i + 1;
    }
    false
}

/// The index of the first entry named `name`, if any.
fn child_position(children: &Vec<ChildEntry>, name: &str) -> (r: Option<usize>)
    ensures
        r matches Some(k) ==> k < children@.len() && children@[k as int].name@ == name@
            && forall|j: int| 0 <= j < k ==> (#[trigger] children@[j]).name@ != name@,
        r is None ==> forall|j: int| 0 <= j < children@.len() ==> (#[trigger] children@[j]).name@ != name@,
{
    let mut i: usize = 0;
    while i < children.len()
        invariant
            i <= children@.len(),
            forall|j: int| 0 <= j < i ==> (#[trigger] children@[j]).name@ != name@,
        decreases children@.len() - i,
    {
        if str_eq(children[i].name.as_str(), name) {
            return Some(i);
        }
        i = i + 1;
    }
    None
}

/// A copy of the ids of `v`.
fn copy_ids(v: &Vec<DeclarationId>) -> (r: Vec<DeclarationId>)
    ensures
        r@ == v@,
{
    let mut r: Vec<DeclarationId> = Vec::new();
    let mut i: usize = 0;
    while i < v.len()
        invariant
            i <= v@.len(),
            r@ == v@.take(i as int),
        decreases v@.len() - i,
    {
        r.push(v[i]);
        assert(v@.take(i + 1) =~= v@.take(i as int).push(v@[i as int]));
        i = i + 1;
    }
    assert(v@.take(v@.len() as int) =~= v@);
    r
}

/// What a declaration is.
#[derive(Debug, PartialEq, Eq)]
pub enum DeclarationItemKind {
    Namespace,
    Type(ResolverStruct),
    Value(Vec<String>, TypedType),
}

/// A declaration of the arena: its annotations, name and kind, the
/// namespace holding it and what is registered inside it.
#[derive(Debug, PartialEq, Eq)]
pub struct DeclarationItem {
    pub annotations: TypedAnnotations,
    pub name: String,
    pub kind: DeclarationItemKind,
    pub parent: Option<DeclarationId>,
    pub children: Vec<ChildEntry>,
}

impl DeclarationItem {
    /// A declaration with nothing registered inside it yet.
    pub fn new(
        annotations: TypedAnnotations,
        name: &str,
        kind: DeclarationItemKind,
        parent: Option<DeclarationId>,
    ) -> (r: Self)
        ensures
            r.annotations == annotations,
            r.name@ == name@,
            r.kind == kind,
            r.parent == parent,
            r.children@.len() == 0,
    {
        DeclarationItem { annotations, name: string_of(name), kind, parent, children: Vec::new() }
    }

    pub fn has_annotation(&self, annotation: &str) -> (r: bool)
        ensures
            r == exists|i: int|
                0 <= i < self.annotations.annotations@.len()
                    && #[trigger] self.annotations.annotations@[i]@ == annotation@,
    {
        self.annotations.has_annotate(annotation)
    }

    /// Registers `id` under `name`, once.
    pub fn add_child(&mut self, name: &str, id: DeclarationId)
        ensures
            final(self).annotations == old(self).annotations,
            final(self).name == old(self).name,
            final(self).kind == old(self).kind,
            final(self).parent == old(self).parent,
            find_child(final(self).children@, name@) == Some(ids_with(find_child(old(self).children@, name@), id)),
            forall|n: Seq<char>| n != name@ ==> #[trigger] find_child(final(self).children@, n) == find_child(old(self).children@, n),
            forall|e: ChildEntry| #[trigger] final(self).children@.contains(e) ==>
                old(self).children@.contains(e) || (e.name@ == name@ && e.ids@ == ids_with(find_child(old(self).children@, name@), id)),
            child_names_unique(old(self).children@) ==> child_names_unique(final(self).children@),
    {
        let ghost old_children = self.children@;
        match child_position(&self.children, name) {
            Some(k) => {
                proof { lemma_find_child_first(old_children, name@, k as int); }
                let mut entry = self.children.remove(k);
                if !ids_contain(&entry.ids, id) {
                    entry.ids.push(id);
                }
                let ghost new_entry = entry;
                self.children.insert(k, entry);
                assert(self.children@ == old_children.update(k as int, new_entry));
                assert(new_entry.name@ == old_children[k as int].name@);
                assert forall|a: int, b: int|
                    0 <= a < self.children@.len() && 0 <= b < self.children@.len() && a != b
                        && child_names_unique(old_children) implies (#[trigger] self.children@[a]).name@
                    != (#[trigger] self.children@[b]).name@ by {
                    assert(self.children@[a].name@ == old_children[a].name@);
                    assert(self.children@[b].name@ == old_children[b].name@);
                }
                proof {
                    lemma_find_child_first(self.children@, name@, k as int);
                    assert forall|n: Seq<char>| n != name@ implies #[trigger] find_child(self.children@, n) == find_child(old_children, n) by {
                        lemma_find_child_frame(self.children@, old_children, n);
                    }
                    assert forall|e: ChildEntry| #[trigger] self.children@.contains(e) implies
                        old_children.contains(e) || (e.name@ == name@ && e.ids@ == ids_with(find_child(old_children, name@), id)) by {
                        let j = choose|j: int| 0 <= j < self.children@.len() && self.children@[j] == e;
                        if j != k {
                            assert(old_children[j] == e);
                        }
                    }
                }
            },
            None => {
                proof { lemma_find_child_none(old_children, name@); }
                let mut ids: Vec<DeclarationId> = Vec::new();
                ids.push(id);
                let entry = ChildEntry { name: string_of(name), ids };
                let ghost new_entry = entry;
                self.children.push(entry);
                assert(self.children@ == old_children.push(new_entry));
                assert forall|a: int, b: int|
                    0 <= a < self.children@.len() && 0 <= b < self.children@.len() && a != b
                        && child_names_unique(old_children) implies (#[trigger] self.children@[a]).name@
                    != (#[trigger] self.children@[b]).name@ by {
                    if a < old_children.len() && b < old_children.len() {
                        assert(self.children@[a] == old_children[a]);
                        assert(self.children@[b] == old_children[b]);
                    } else if a < old_children.len() {
                        assert(self.children@[a] == old_children[a]);
                    } else {
                        assert(self.children@[b] == old_children[b]);
                    }
                }
                proof {
                    lemma_find_child_first(self.children@, name@, old_children.len() as int);
                    assert forall|n: Seq<char>| n != name@ implies #[trigger] find_child(self.children@, n) == find_child(old_children, n) by {
                        lemma_find_child_push(old_children, new_entry, n);
                    }
                    assert forall|e: ChildEntry| #[trigger] self.children@.contains(e) implies
                        old_children.contains(e) || (e.name@ == name@ && e.ids@ == ids_with(find_child(old_children, name@), id)) by {
                        let j = choose|j: int| 0 <= j < self.children@.len() && self.children@[j] == e;
                        if j < old_children.len() {
                            assert(old_children[j] == e);
                        }
                    }
                }
            },
        }
    }

    /// The ids registered under `name`, if any.
    pub fn get_child(&self, name: &str) -> (r: Option<Vec<DeclarationId>>)
        ensures
            r matches Some(v) ==> find_child(self.children@, name@) == Some(v@),
            r is None ==> find_child(self.children@, name@) is None,
    {
        match child_position(&self.children, name) {
            Some(k) => {
                proof { lemma_find_child_first(self.children@, name@, k as int); }
                Some(copy_ids(&self.children[k].ids))
            },
            None => {
                proof { lemma_find_child_none(self.children@, name@); }
                None
            },
        }
    }

    /// Everything registered inside this declaration.
    pub fn children(&self) -> (r: &Vec<ChildEntry>)
        ensures
            r == &self.children,
    {
        &self.children
    }

    pub fn parent(&self) -> (r: Option<DeclarationId>)
        ensures
            r == self.parent,
    {
        self.parent
    }

    pub fn is_namespace(&self) -> (r: bool)
        ensures
            r == (self.kind is Namespace),
    {
        matches!(self.kind, DeclarationItemKind::Namespace)
    }

    pub fn is_type(&self) -> (r: bool)
        ensures
            r == (self.kind is Type),
    {
        matches!(self.kind, DeclarationItemKind::Type(_))
    }

    pub fn is_value(&self) -> (r: bool)
        ensures
            r == (self.kind is Value),
    {
        matches!(self.kind, DeclarationItemKind::Value(..))
    }
}


/// No two entries of `s` are registered under the same name.
pub open spec fn child_names_unique(s: Seq<ChildEntry>) -> bool {
    forall|i: int, j: int|
        0 <= i < s.len() && 0 <= j < s.len() && i != j ==> (#[trigger] s[i]).name@ != (#[trigger] s[j]).name@
}

/// In every declaration of `decls`, each name is registered by one entry.
pub open spec fn children_unique(decls: Map<usize, DeclarationItem>) -> bool {
    forall|id: usize| #[trigger] decls.contains_key(id) ==> child_names_unique(decls[id].children@)
}

/// The index of the declaration holding `item` (0 when there is none).
pub open spec fn parent_id_of(item: DeclarationItem) -> usize {
    match item.parent {
        Some(p) => p.0,
        None => 0,
    }
}

/// The index that `d` names.
pub open spec fn index_of(d: DeclarationId) -> usize {
    d.0
}

/// The index of the first id of `ids`.
pub open spec fn first_id(ids: Seq<DeclarationId>) -> usize {
    ids[0].0
}

/// An optional declaration index as an optional id.
pub open spec fn as_decl_id(o: Option<usize>) -> Option<DeclarationId> {
    match o {
        Some(i) => Some(DeclarationId(i)),
        None => None,
    }
}

/// The strings of `v` as character sequences.
pub open spec fn names_of(v: Seq<String>) -> Seq<Seq<char>> {
    v.map_values(|n: String| n@)
}

/// The path `ns` as character sequences.
pub open spec fn path_of(ns: Seq<&str>) -> Seq<Seq<char>> {
    ns.map_values(|n: &str| n@)
}

/// Follows `path` from `parent`, one registered name at a time, taking the
/// first id registered under each name; with `namespaces_only`, every
/// declaration passed through must be a namespace.
pub open spec fn resolve_spec(
    decls: Map<usize, DeclarationItem>,
    parent: usize,
    path: Seq<Seq<char>>,
    namespaces_only: bool,
) -> Option<usize>
    decreases path.len(),
{
    if path.len() == 0 {
        Some(parent)
    } else if !decls.contains_key(parent) {
        None
    } else if namespaces_only && !(decls[parent].kind is Namespace) {
        None
    } else {
        match find_child(decls[parent].children@, path[0]) {
            None => None,
            Some(ids) => resolve_spec(decls, first_id(ids), path.drop_first(), namespaces_only),
        }
    }
}

/// The names of the declarations from the root down to `id`, the root's
/// own name left out.
pub open spec fn fqn_spec(decls: Map<usize, DeclarationItem>, id: usize) -> Seq<Seq<char>>
    decreases id,
{
    if decls.contains_key(id) && decls[id].parent is Some && parent_id_of(decls[id]) < id {
        fqn_spec(decls, parent_id_of(decls[id])).push(decls[id].name@)
    } else {
        Seq::empty()
    }
}

/// The shape every arena keeps: the root namespace at id 0, every other
/// declaration held by an older one, and every registered child naming and
/// pointing back to the declaration that holds it.
pub open spec fn arena_wf(decls: Map<usize, DeclarationItem>, latest: usize) -> bool {
    &&& decls.contains_key(0)
    &&& decls[0].kind is Namespace
    &&& decls[0].parent is None
    &&& forall|id: usize| #[trigger] decls.contains_key(id) ==> id <= latest
    &&& forall|id: usize| #[trigger] decls.contains_key(id) && id != 0 ==> {
        &&& decls[id].parent is Some
        &&& parent_id_of(decls[id]) < id
        &&& decls.contains_key(parent_id_of(decls[id]))
    }
    &&& forall|id: usize, e: ChildEntry| #[trigger] decls.contains_key(id) && #[trigger] decls[id].children@.contains(e) ==> {
        &&& e.ids@.len() > 0
        &&& forall|c: DeclarationId| #[trigger] e.ids@.contains(c) ==> {
            &&& decls.contains_key(c.0)
            &&& c.0 != 0
            &&& decls[c.0].name@ == e.name@
            &&& decls[c.0].parent == Some(DeclarationId(id))
        }
    }
}

/// Registers declarations in namespaces and resolves them by name.
#[derive(Debug)]
pub struct ResolverArena {
    declaration_id_generator: DeclarationIdGenerator,
    declarations: HashMap<usize, DeclarationItem>,
}

impl ResolverArena {
    /// The declarations, by id.
    pub closed spec fn decls(&self) -> Map<usize, DeclarationItem> {
        self.declarations@
    }

    /// The latest id handed out.
    pub closed spec fn latest(&self) -> usize {
        self.declaration_id_generator.latest
    }

    pub open spec fn wf(&self) -> bool {
        arena_wf(self.decls(), self.latest())
    }

    /// The id reached from `parent` by following the namespaces of
    /// `namespace`; `None` when a step is missing or leaves the namespaces.
    pub fn resolve_namespace(&self, parent: DeclarationId, namespace: &[&str]) -> (r: Option<DeclarationId>)
        requires
            self.wf(),
        ensures
            r == as_decl_id(resolve_spec(self.decls(), parent.0, path_of(namespace@), true)),
    {
        self.resolve_path(parent, namespace, true)
    }

    /// `resolve_namespace` from the root.
    pub fn resolve_namespace_from_root(&self, namespace: &[&str]) -> (r: Option<DeclarationId>)
        requires
            self.wf(),
        ensures
            r == as_decl_id(resolve_spec(self.decls(), 0, path_of(namespace@), true)),
    {
        self.resolve_path(DeclarationId(0), namespace, true)
    }

    /// The id reached from `parent_id` by following the names of `item_name`.
    pub fn resolve_declaration_id(&self, parent_id: DeclarationId, item_name: &[&str]) -> (r: Option<DeclarationId>)
        requires
            self.wf(),
        ensures
            r == as_decl_id(resolve_spec(self.decls(), parent_id.0, path_of(item_name@), false)),
    {
        self.resolve_path(parent_id, item_name, false)
    }

    /// `resolve_declaration_id` from the root.
    pub fn resolve_declaration_id_from_root(&self, fqn: &[&str]) -> (r: Option<DeclarationId>)
        requires
            self.wf(),
        ensures
            r == as_decl_id(resolve_spec(self.decls(), 0, path_of(fqn@), false)),
    {
        self.resolve_path(DeclarationId(0), fqn, false)
    }

    fn resolve_path(&self, parent: DeclarationId, path: &[&str], namespaces_only: bool) -> (r: Option<DeclarationId>)
        requires
            self.wf(),
        ensures
            r == as_decl_id(resolve_spec(self.decls(), parent.0, path_of(path@), namespaces_only)),
    {
        let ghost decls = self.decls();
        let mut cur = parent.0;
        let mut i: usize = 0;
        assert(path_of(path@).skip(0) =~= path_of(path@));
        while i < path.len()
            invariant
                i <= path@.len(),
                decls == self.decls(),
                self.wf(),
                resolve_spec(decls, parent.0, path_of(path@), namespaces_only)
                    == resolve_spec(decls, cur, path_of(path@).skip(i as int), namespaces_only),
            decreases path@.len() - i,
        {
            let ghost rest = path_of(path@).skip(i as int);
            assert(rest.drop_first() =~= path_of(path@).skip(i + 1));
            assert(rest[0] == path@[i as int]@);
            let item = match self.declarations.get(&cur) {
                Some(item) => item,
                None => {
                    return None;
                },
            };
            if namespaces_only && !item.is_namespace() {
                return None;
            }
            match item.get_child(path[i]) {
                None => {
                    return None;
                },
                Some(ids) => {
                    proof {
                        lemma_find_child_in(item.children@, path@[i as int]@);
                        let k = choose|k: int| 0 <= k < item.children@.len()
                            && (#[trigger] item.children@[k]).name@ == path@[i as int]@
                            && find_child(item.children@, path@[i as int]@) == Some(item.children@[k].ids@);
                        assert(item.children@.contains(item.children@[k]));
                    }
                    let first = ids[0];
                    cur = first.0;
                },
            }
            i = i + 1;
        }
        assert(path_of(path@).skip(i as int).len() == 0);
        Some(DeclarationId(cur))
    }

    /// Registers a namespace `name` inside `namespace`.
    pub fn register_namespace(&mut self, namespace: &[&str], name: &str, annotation: TypedAnnotations) -> (r: Option<DeclarationId>)
        requires
            old(self).wf(),
            old(self).latest() < usize::MAX,
        ensures
            final(self).wf(),
            registration(old(self).decls(), final(self).decls(), old(self).latest(), final(self).latest(),
                path_of(namespace@), name@, DeclarationItemKind::Namespace, annotation, r),
            children_unique(old(self).decls()) ==> children_unique(final(self).decls()),
    {
        self.register(namespace, name, DeclarationItemKind::Namespace, annotation)
    }

    /// Registers a struct `name` inside `namespace`.
    pub fn register_struct(&mut self, namespace: &[&str], name: &str, annotation: TypedAnnotations) -> (r: Option<DeclarationId>)
        requires
            old(self).wf(),
            old(self).latest() < usize::MAX,
        ensures
            final(self).wf(),
            exists|s: ResolverStruct| #[trigger] type_declared(s, namespace@, name@, StructKind::Struct)
                && registration(old(self).decls(), final(self).decls(), old(self).latest(), final(self).latest(),
                path_of(namespace@), name@, DeclarationItemKind::Type(s), annotation, r),
            children_unique(old(self).decls()) ==> children_unique(final(self).decls()),
    {
        self.register_type(namespace, name, annotation, StructKind::Struct)
    }

    /// Registers a type parameter `name` inside `namespace`.
    pub fn register_type_parameter(&mut self, namespace: &[&str], name: &str, annotation: TypedAnnotations) -> (r: Option<DeclarationId>)
        requires
            old(self).wf(),
            old(self).latest() < usize::MAX,
        ensures
            final(self).wf(),
            exists|s: ResolverStruct| #[trigger] type_declared(s, namespace@, name@, StructKind::TypeParameter)
                && registration(old(self).decls(), final(self).decls(), old(self).latest(), final(self).latest(),
                path_of(namespace@), name@, DeclarationItemKind::Type(s), annotation, r),
            children_unique(old(self).decls()) ==> children_unique(final(self).decls()),
    {
        self.register_type(namespace, name, annotation, StructKind::TypeParameter)
    }

    /// Registers a protocol `name` inside `namespace`.
    pub fn register_protocol(&mut self, namespace: &[&str], name: &str, annotation: TypedAnnotations) -> (r: Option<DeclarationId>)
        requires
            old(self).wf(),
            old(self).latest() < usize::MAX,
        ensures
            final(self).wf(),
            exists|s: ResolverStruct| #[trigger] type_declared(s, namespace@, name@, StructKind::Protocol)
                && registration(old(self).decls(), final(self).decls(), old(self).latest(), final(self).latest(),
                path_of(namespace@), name@, DeclarationItemKind::Type(s), annotation, r),
            children_unique(old(self).decls()) ==> children_unique(final(self).decls()),
    {
        self.register_type(namespace, name, annotation, StructKind::Protocol)
    }

    fn register_type(&mut self, namespace: &[&str], name: &str, annotation: TypedAnnotations, kind: StructKind) -> (r: Option<DeclarationId>)
        requires
            old(self).wf(),
            old(self).latest() < usize::MAX,
        ensures
            final(self).wf(),
            exists|s: ResolverStruct| #[trigger] type_declared(s, namespace@, name@, kind)
                && registration(old(self).decls(), final(self).decls(), old(self).latest(), final(self).latest(),
                path_of(namespace@), name@, DeclarationItemKind::Type(s), annotation, r),
            children_unique(old(self).decls()) ==> children_unique(final(self).decls()),
    {
        let names = strings_of(namespace);
        let self_ = TypedType::Value(TypedNamedValueType {
            package: TypedPackage::Resolved(Package { names }),
            name: string_of(name),
            type_args: None,
        });
        let s = ResolverStruct::new(self_, kind);
        let ghost gs = s;
        let r = self.register(namespace, name, DeclarationItemKind::Type(s), annotation);
        assert(type_declared(gs, namespace@, name@, kind));
        r
    }

    /// Registers a value `name` of type `ty` inside `namespace`.
    pub fn register_value(&mut self, namespace: &[&str], name: &str, ty: TypedType, annotation: TypedAnnotations) -> (r: Option<DeclarationId>)
        requires
            old(self).wf(),
            old(self).latest() < usize::MAX,
        ensures
            final(self).wf(),
            exists|ns: Vec<String>| #[trigger] names_of(ns@) == path_of(namespace@)
                && registration(old(self).decls(), final(self).decls(), old(self).latest(), final(self).latest(),
                path_of(namespace@), name@, DeclarationItemKind::Value(ns, ty), annotation, r),
            children_unique(old(self).decls()) ==> children_unique(final(self).decls()),
    {
        let ns = strings_of(namespace);
        let ghost gns = ns;
        assert(names_of(gns@) == path_of(namespace@));
        self.register(namespace, name, DeclarationItemKind::Value(ns, ty), annotation)
    }

    /// The names of the declarations from the root down to `id`.
    pub fn resolve_fully_qualified_name(&self, id: &DeclarationId) -> (r: Vec<String>)
        requires
            self.wf(),
            self.decls().contains_key(id.0),
        ensures
            r@.map_values(|n: String| n@) == fqn_spec(self.decls(), id.0),
        decreases id.0,
    {
        let decl = self.declarations.get(&id.0).unwrap();
        match decl.parent() {
            Some(parent_id) => {
                let mut parents_name = self.resolve_fully_qualified_name(&parent_id);
                let ghost before = parents_name@;
                parents_name.push(decl.name.clone());
                assert(parents_name@.map_values(|n: String| n@) =~= before.map_values(|n: String| n@).push(decl.name@));
                parents_name
            },
            None => {
                let r: Vec<String> = Vec::new();
                assert(r@.map_values(|n: String| n@) =~= Seq::<Seq<char>>::empty());
                r
            },
        }
    }

    /// The declaration `name` in `namespace`, if there is one.
    pub fn get(&self, namespace: &[&str], name: &str) -> (r: Option<&DeclarationItem>)
        requires
            self.wf(),
        ensures
            r matches Some(item) ==> resolve_spec(self.decls(), 0, path_of(namespace@).push(name@), false) matches Some(i)
                && self.decls().contains_key(i) && *item == self.decls()[i],
            r is None ==> resolve_spec(self.decls(), 0, path_of(namespace@).push(name@), false) is None,
    {
        let mut path: Vec<&str> = Vec::new();
        let mut i: usize = 0;
        while i < namespace.len()
            invariant
                i <= namespace@.len(),
                path@ == namespace@.take(i as int),
            decreases namespace@.len() - i,
        {
            path.push(namespace[i]);
            assert(namespace@.take(i + 1) =~= namespace@.take(i as int).push(namespace@[i as int]));
            i = i + 1;
        }
        path.push(name);
        assert(path@ =~= namespace@.push(name));
        assert(path_of(path@) =~= path_of(namespace@).push(name@));
        let id = match self.resolve_declaration_id_from_root(path.as_slice()) {
            Some(id) => id,
            None => {
                return None;
            },
        };
        proof { lemma_resolved_exists(self.decls(), self.latest(), 0, path_of(path@), false); }
        self.get_by_id(&id)
    }

    /// The declaration with id `id`, if there is one.
    pub fn get_by_id(&self, id: &DeclarationId) -> (r: Option<&DeclarationItem>)
        ensures
            r matches Some(item) ==> self.decls().contains_key(id.0) && *item == self.decls()[id.0],
            r is None ==> !self.decls().contains_key(id.0),
    {
        self.declarations.get(&id.0)
    }

    /// The declarations with the ids `ids`, in that order, when all of them
    /// exist.
    pub fn get_by_ids(&self, ids: &[DeclarationId]) -> (r: Option<Vec<&DeclarationItem>>)
        ensures
            r is Some == (forall|k: int| 0 <= k < ids@.len() ==> self.decls().contains_key(#[trigger] ids@[k].0)),
            r matches Some(items) ==> items@.len() == ids@.len() && forall|k: int|
                0 <= k < ids@.len() ==> *(#[trigger] items@[k]) == self.decls()[ids@[k].0],
    {
        let mut items: Vec<&DeclarationItem> = Vec::new();
        let mut i: usize = 0;
        while i < ids.len()
            invariant
                i <= ids@.len(),
                items@.len() == i,
                forall|k: int| 0 <= k < i ==> self.decls().contains_key(#[trigger] ids@[k].0),
                forall|k: int| 0 <= k < i ==> *(#[trigger] items@[k]) == self.decls()[ids@[k].0],
            decreases ids@.len() - i,
        {
            match self.get_by_id(&ids[i]) {
                Some(item) => items.push(item),
                None => {
                    return None;
                },
            }
            i = i + 1;
        }
        Some(items)
    }

    /// The type `name` in `name_space`; the name must not denote a namespace
    /// or a value.
    pub fn get_type(&self, name_space: &[&str], name: &str) -> (r: Option<&ResolverStruct>)
        requires
            self.wf(),
            resolve_spec(self.decls(), 0, path_of(name_space@).push(name@), false) matches Some(i)
                ==> self.decls()[i].kind is Type,
        ensures
            r matches Some(s) ==> resolve_spec(self.decls(), 0, path_of(name_space@).push(name@), false) matches Some(i)
                && self.decls().contains_key(i) && self.decls()[i].kind == DeclarationItemKind::Type(*s),
            r is None ==> resolve_spec(self.decls(), 0, path_of(name_space@).push(name@), false) is None,
    {
        match self.get(name_space, name) {
            None => None,
            Some(item) => match &item.kind {
                DeclarationItemKind::Type(t) => Some(t),
                _ => None,
            },
        }
    }

    /// The declaration with id `id`, to be changed in place.
    fn get_mut_by_id(&mut self, id: usize) -> (r: Option<&mut DeclarationItem>)
        ensures
            final(self).latest() == old(self).latest(),
            r is Some == old(self).decls().contains_key(id),
            r is Some ==> *r.unwrap() == old(self).decls()[id]
                && final(self).decls() == old(self).decls().insert(id, *final(r.unwrap())),
            r is None ==> final(self).decls() == old(self).decls(),
    {
        match self.declarations.entry(id) {
            Entry::Occupied(o) => Some(o.into_mut()),
            Entry::Vacant(_) => None,
        }
    }

    /// The declaration `name` in `namespace`, to be changed in place; `None`
    /// when there is none.
    pub fn get_mut(&mut self, namespace: &[&str], name: &str) -> (r: Option<&mut DeclarationItem>)
        requires
            old(self).wf(),
        ensures
            final(self).latest() == old(self).latest(),
            (match resolve_spec(old(self).decls(), 0, path_of(namespace@).push(name@), false) {
                None => r is None && final(self).decls() == old(self).decls(),
                Some(i) => r is Some && old(self).decls().contains_key(i)
                    && *r.unwrap() == old(self).decls()[i]
                    && final(self).decls() == old(self).decls().insert(i, *final(r.unwrap())),
            }),
    {
        let mut path: Vec<&str> = Vec::new();
        let mut i: usize = 0;
        while i < namespace.len()
            invariant
                i <= namespace@.len(),
                path@ == namespace@.take(i as int),
            decreases namespace@.len() - i,
        {
            path.push(namespace[i]);
            assert(namespace@.take(i + 1) =~= namespace@.take(i as int).push(namespace@[i as int]));
            i = i + 1;
        }
        path.push(name);
        assert(path@ =~= namespace@.push(name));
        assert(path_of(path@) =~= path_of(namespace@).push(name@));
        let id = match self.resolve_declaration_id_from_root(path.as_slice()) {
            Some(id) => id,
            None => {
                return None;
            },
        };
        proof { lemma_resolved_exists(self.decls(), self.latest(), 0, path_of(path@), false); }
        self.get_mut_by_id(id.0)
    }

    /// The type `name` in `name_space`, to be changed in place; the name must
    /// not denote a namespace or a value. Whatever is written through the
    /// result, the arena stays well-formed.
    pub fn get_type_mut(&mut self, name_space: &[&str], name: &str) -> (r: Option<&mut ResolverStruct>)
        requires
            old(self).wf(),
            resolve_spec(old(self).decls(), 0, path_of(name_space@).push(name@), false) matches Some(i)
                ==> old(self).decls()[i].kind is Type,
        ensures
            final(self).latest() == old(self).latest(),
            (match resolve_spec(old(self).decls(), 0, path_of(name_space@).push(name@), false) {
                None => r is None && final(self).decls() == old(self).decls(),
                Some(i) => r is Some && old(self).decls().contains_key(i)
                    && old(self).decls()[i].kind == DeclarationItemKind::Type(*r.unwrap())
                    && final(self).decls() == old(self).decls().insert(i, with_kind(old(self).decls()[i], DeclarationItemKind::Type(*final(r.unwrap())))),
            }),
            final(self).wf(),
            forall|from: usize, path: Seq<Seq<char>>, namespaces_only: bool|
                #[trigger] resolve_spec(final(self).decls(), from, path, namespaces_only)
                    == resolve_spec(old(self).decls(), from, path, namespaces_only),
    {
        let ghost before = self.decls();
        let ghost latest = self.latest();
        match self.get_mut(name_space, name) {
            None => None,
            Some(item) => match &mut item.kind {
                DeclarationItemKind::Type(t) => {
                    proof {
                        let i = resolve_spec(before, 0, path_of(name_space@).push(name@), false)->0;
                        lemma_retyped_keeps_wf(before, latest, i);
                        assert forall|from: usize, path: Seq<Seq<char>>, namespaces_only: bool|
                            #[trigger] resolve_spec(before.insert(i, with_kind(before[i], DeclarationItemKind::Type(*final(t)))), from, path, namespaces_only)
                                == resolve_spec(before, from, path, namespaces_only) by {
                            lemma_retyped_keeps_resolution(before, i, *final(t), from, path, namespaces_only);
                        }
                    }
                    Some(t)
                },
                _ => None,
            },
        }
    }

    /// Registers a declaration of kind `kind` as `name` in the namespace
    /// `namespace`: refused when the namespace cannot be resolved, or when a
    /// namespace would be registered under a name already taken.
    fn register(
        &mut self,
        namespace: &[&str],
        name: &str,
        kind: DeclarationItemKind,
        annotation: TypedAnnotations,
    ) -> (r: Option<DeclarationId>)
        requires
            old(self).wf(),
            old(self).latest() < usize::MAX,
        ensures
            final(self).wf(),
            registration(old(self).decls(), final(self).decls(), old(self).latest(), final(self).latest(),
                path_of(namespace@), name@, kind, annotation, r),
            children_unique(old(self).decls()) ==> children_unique(final(self).decls()),
    {
        let ghost old_decls = self.decls();
        let target = match self.resolve_namespace_from_root(namespace) {
            Some(t) => t,
            None => {
                return None;
            },
        };
        proof { lemma_resolved_exists(old_decls, self.latest(), 0, path_of(namespace@), true); }
        let is_namespace = matches!(kind, DeclarationItemKind::Namespace);
        let taken = match self.declarations.get(&target.0) {
            Some(d) => d.get_child(name).is_some(),
            None => false,
        };
        if is_namespace && taken {
            return None;
        }
        let mut d = self.declarations.remove(&target.0).unwrap();
        let id = self.declaration_id_generator.next();
        d.add_child(name, id);
        self.declarations.insert(target.0, d);
        let ghost new_parent = d;
        let item = DeclarationItem::new(annotation, name, kind, Some(target));
        self.declarations.insert(id.0, item);
        proof {
            if children_unique(old_decls) {
                assert forall|k: usize| #[trigger] self.decls().contains_key(k) implies child_names_unique(
                    self.decls()[k].children@,
                ) by {
                    if k == id.0 {
                        assert(self.decls()[k].children@.len() == 0);
                    } else if k == target.0 {
                        assert(self.decls()[k] == new_parent);
                    } else {
                        assert(old_decls.contains_key(k));
                    }
                }
            }
        }
        proof { lemma_registration_wf(old_decls, self.decls(), (self.latest() - 1) as usize, target.0, name@, id); }
        Some(id)
    }
}

impl Default for ResolverArena {
    /// An arena holding the root namespace and, in it, a struct for every
    /// builtin type.
    fn default() -> (r: Self)
        ensures
            r.wf(),
            r.decls()[0].name@.len() == 0,
            forall|i: int| 0 <= i < builtin_names().len() ==> #[trigger] find_child(r.decls()[0].children@, builtin_names()[i]) is Some,
            r.latest() == 14,
            children_unique(r.decls()),
            forall|id: usize| 1 <= id <= 14 ==> #[trigger] r.decls().contains_key(id),
            forall|id: usize| 1 <= id <= 14 ==> (#[trigger] r.decls()[id]).kind is Type,
            forall|id: usize| 1 <= id <= 14 ==> (#[trigger] r.decls()[id]).parent == Some(DeclarationId(0)),
    {
        let mut declarations: HashMap<usize, DeclarationItem> = HashMap::new();
        declarations.insert(0, DeclarationItem::new(TypedAnnotations::default(), "", DeclarationItemKind::Namespace, None));
        let mut arena = ResolverArena {
            declaration_id_generator: DeclarationIdGenerator::new(0),
            declarations,
        };
        proof {
            reveal_strlit("");
        }
        let types = TypedType::builtin_types();
        assert(builtin_names().len() == 14);
        assert(types@.len() == 14);
        let empty: [&str; 0] = [];
        let mut i: usize = 0;
        while i < types.len()
            invariant
                i <= types@.len(),
                builtin_values(types@, builtin_names()),
                arena.wf(),
                arena.latest() == i,
                children_unique(arena.decls()),
                types@.len() == 14,
                forall|id: usize| 1 <= id <= i ==> #[trigger] arena.decls().contains_key(id) && arena.decls()[id].kind is Type
                    && arena.decls()[id].parent == Some(DeclarationId(0)),
                arena.decls()[0].name@.len() == 0,
                forall|j: int| 0 <= j < i ==> #[trigger] find_child(arena.decls()[0].children@, builtin_names()[j]) is Some,
            decreases types@.len() - i,
        {
            let ghost before = arena.decls();
            match &types[i] {
                TypedType::Value(v) => {
                    arena.register_struct(&empty, v.name.as_str(), TypedAnnotations::default());
                    proof {
                        assert(path_of(empty@) =~= Seq::<Seq<char>>::empty());
                        assert(resolve_spec(before, 0, path_of(empty@), true) == Some(0usize));
                        assert forall|id: usize| 1 <= id <= i + 1 implies #[trigger] arena.decls().contains_key(id)
                            && arena.decls()[id].kind is Type && arena.decls()[id].parent == Some(DeclarationId(0)) by {
                            if id <= i {
                                assert(before.contains_key(id));
                                assert(id != 0);
                            }
                        }
                        assert forall|j: int| 0 <= j < i + 1 implies #[trigger] find_child(arena.decls()[0].children@, builtin_names()[j]) is Some by {
                            if builtin_names()[j] != builtin_names()[i as int] {
                                assert(find_child(before[0].children@, builtin_names()[j]) is Some);
                            }
                        }
                    }
                },
                _ => {
                    assert(false);
                },
            }
            i = i + 1;
        }
        assert(i == 14);
        assert forall|id: usize| 1 <= id <= 14 implies arena.decls().contains_key(id) && (#[trigger] arena.decls()[id]).kind is Type
            && arena.decls()[id].parent == Some(DeclarationId(0)) by {
            assert(1 <= id <= i);
            assert(arena.decls().contains_key(id));
        }
        arena
    }
}

/// `s` is the struct that registering the type `name` of kind `kind` in
/// the namespace `namespace` declares.
pub open spec fn type_declared(s: ResolverStruct, namespace: Seq<&str>, name: Seq<char>, kind: StructKind) -> bool {
    &&& s.self_ is Value
    &&& s.self_->Value_0.package is Resolved
    &&& s.self_->Value_0.package->Resolved_0.names@.map_values(|n: String| n@) == path_of(namespace)
    &&& s.self_->Value_0.name@ == name
    &&& s.self_->Value_0.type_args is None
    &&& s.kind == kind
    &&& s.namespace@.map_values(|n: String| n@) == path_of(namespace)
    &&& s.stored_properties@.len() == 0
    &&& s.computed_properties@.len() == 0
    &&& s.member_functions@.len() == 0
    &&& s.conformed_protocols@.len() == 0
}

/// Owned copies of the strings of `ns`.
fn strings_of(ns: &[&str]) -> (r: Vec<String>)
    ensures
        r@.map_values(|n: String| n@) == path_of(ns@),
{
    let mut r: Vec<String> = Vec::new();
    let mut i: usize = 0;
    while i < ns.len()
        invariant
            i <= ns@.len(),
            names_of(r@) == path_of(ns@).take(i as int),
            r@.len() == i,
        decreases ns@.len() - i,
    {
        let ghost before = r@;
        let item = string_of(ns[i]);
        r.push(item);
        assert(r@ == before.push(item));
        assert forall|j: int| 0 <= j < i + 1 implies #[trigger] names_of(r@)[j] == path_of(ns@).take(i + 1)[j] by {
            if j < i {
                assert(r@[j] == before[j]);
                assert(names_of(before)[j] == path_of(ns@).take(i as int)[j]);
            }
        }
        assert(names_of(r@) =~= path_of(ns@).take(i + 1));
        i = i + 1;
    }
    assert(path_of(ns@).take(ns@.len() as int) =~= path_of(ns@));
    r
}

/// How a registration changes the arena (see `ResolverArena::register`).
pub open spec fn registration(
    old_decls: Map<usize, DeclarationItem>,
    new_decls: Map<usize, DeclarationItem>,
    old_latest: usize,
    new_latest: usize,
    ns: Seq<Seq<char>>,
    name: Seq<char>,
    kind: DeclarationItemKind,
    annotation: TypedAnnotations,
    r: Option<DeclarationId>,
) -> bool {
    match resolve_spec(old_decls, 0, ns, true) {
        None => r is None && new_decls == old_decls && new_latest == old_latest,
        Some(p) => if kind is Namespace && find_child(old_decls[p].children@, name) is Some {
            r is None && new_decls == old_decls && new_latest == old_latest
        } else {
            let id = (old_latest + 1) as usize;
            &&& r == Some(DeclarationId(id))
            &&& new_latest == id
            &&& new_decls.dom() == old_decls.dom().insert(id)
            &&& forall|i: usize| #[trigger] old_decls.contains_key(i) && i != p ==> new_decls[i] == old_decls[i]
            &&& child_added(old_decls[p], new_decls[p], name, DeclarationId(id))
            &&& new_decls[id].name@ == name
            &&& new_decls[id].kind == kind
            &&& new_decls[id].annotations == annotation
            &&& new_decls[id].parent == Some(DeclarationId(p))
            &&& new_decls[id].children@.len() == 0
        },
    }
}

/// `after` is `before` with `id` added under `name`.
pub open spec fn child_added(before: DeclarationItem, after: DeclarationItem, name: Seq<char>, id: DeclarationId) -> bool {
    &&& after.annotations == before.annotations
    &&& after.name == before.name
    &&& after.kind == before.kind
    &&& after.parent == before.parent
    &&& find_child(after.children@, name) == Some(ids_with(find_child(before.children@, name), id))
    &&& forall|n: Seq<char>| n != name ==> #[trigger] find_child(after.children@, n) == find_child(before.children@, n)
    &&& forall|e: ChildEntry| #[trigger] after.children@.contains(e) ==>
        before.children@.contains(e) || (e.name@ == name && e.ids@ == ids_with(find_child(before.children@, name), id))
}

/// What a resolution reaches is a declaration of the arena.
/// `item` with its kind replaced by `kind`.
pub open spec fn with_kind(item: DeclarationItem, kind: DeclarationItemKind) -> DeclarationItem {
    DeclarationItem {
        annotations: item.annotations,
        name: item.name,
        kind: kind,
        parent: item.parent,
        children: item.children,
    }
}

/// Changing what a type declaration holds changes no name's resolution.
proof fn lemma_retyped_keeps_resolution(
    decls: Map<usize, DeclarationItem>,
    i: usize,
    s: ResolverStruct,
    parent: usize,
    path: Seq<Seq<char>>,
    namespaces_only: bool,
)
    requires
        decls.contains_key(i),
        decls[i].kind is Type,
    ensures
        resolve_spec(decls.insert(i, with_kind(decls[i], DeclarationItemKind::Type(s))), parent, path, namespaces_only)
            == resolve_spec(decls, parent, path, namespaces_only),
    decreases path.len(),
{
    let d2 = decls.insert(i, with_kind(decls[i], DeclarationItemKind::Type(s)));
    if path.len() > 0 && decls.contains_key(parent) {
        assert(d2[parent].children == decls[parent].children);
        assert(d2[parent].kind is Namespace == decls[parent].kind is Namespace);
        match find_child(decls[parent].children@, path[0]) {
            None => {},
            Some(ids) => {
                lemma_retyped_keeps_resolution(decls, i, s, first_id(ids), path.drop_first(), namespaces_only);
            },
        }
    }
}

/// Changing what a type declaration holds keeps the arena well-formed.
proof fn lemma_retyped_keeps_wf(decls: Map<usize, DeclarationItem>, latest: usize, i: usize)
    requires
        arena_wf(decls, latest),
        decls.contains_key(i),
        decls[i].kind is Type,
    ensures
        forall|s: ResolverStruct|
            #[trigger] arena_wf(decls.insert(i, with_kind(decls[i], DeclarationItemKind::Type(s))), latest),
{
    assert forall|s: ResolverStruct|
        #[trigger] arena_wf(decls.insert(i, with_kind(decls[i], DeclarationItemKind::Type(s))), latest) by {
        let d2 = decls.insert(i, with_kind(decls[i], DeclarationItemKind::Type(s)));
        assert(i != 0);
        assert(d2.dom() =~= decls.dom());
        assert forall|id: usize| #[trigger] d2.contains_key(id) implies d2[id].parent == decls[id].parent
            && d2[id].name == decls[id].name && d2[id].children == decls[id].children by {
        }
        assert forall|id: usize, e: ChildEntry| #[trigger] d2.contains_key(id) && #[trigger] d2[id].children@.contains(e) implies {
            &&& e.ids@.len() > 0
            &&& forall|c: DeclarationId| #[trigger] e.ids@.contains(c) ==> {
                &&& d2.contains_key(c.0)
                &&& c.0 != 0
                &&& d2[c.0].name@ == e.name@
                &&& d2[c.0].parent == Some(DeclarationId(id))
            }
        } by {
            assert(decls.contains_key(id) && decls[id].children@.contains(e));
            assert forall|c: DeclarationId| #[trigger] e.ids@.contains(c) implies {
                &&& d2.contains_key(c.0)
                &&& c.0 != 0
                &&& d2[c.0].name@ == e.name@
                &&& d2[c.0].parent == Some(DeclarationId(id))
            } by {
                assert(decls.contains_key(c.0));
            }
        }
    }
}

proof fn lemma_resolved_exists(
    decls: Map<usize, DeclarationItem>,
    latest: usize,
    parent: usize,
    path: Seq<Seq<char>>,
    namespaces_only: bool,
)
    requires
        arena_wf(decls, latest),
        decls.contains_key(parent),
    ensures
        resolve_spec(decls, parent, path, namespaces_only) matches Some(x) ==> decls.contains_key(x),
    decreases path.len(),
{
    if path.len() > 0 {
        if let Some(ids) = find_child(decls[parent].children@, path[0]) {
            lemma_find_child_in(decls[parent].children@, path[0]);
            let k = choose|k: int| 0 <= k < decls[parent].children@.len()
                && (#[trigger] decls[parent].children@[k]).name@ == path[0]
                && find_child(decls[parent].children@, path[0]) == Some(decls[parent].children@[k].ids@);
            let e = decls[parent].children@[k];
            assert(decls[parent].children@.contains(e));
            assert(e.ids@.contains(e.ids@[0]));
            lemma_resolved_exists(decls, latest, first_id(ids), path.drop_first(), namespaces_only);
        }
    }
}

/// A registration keeps the arena's shape.
proof fn lemma_registration_wf(
    old_decls: Map<usize, DeclarationItem>,
    new_decls: Map<usize, DeclarationItem>,
    old_latest: usize,
    p: usize,
    name: Seq<char>,
    id: DeclarationId,
)
    requires
        arena_wf(old_decls, old_latest),
        old_latest < usize::MAX,
        id.0 == old_latest + 1,
        old_decls.contains_key(p),
        new_decls.dom() == old_decls.dom().insert(id.0),
        forall|i: usize| #[trigger] old_decls.contains_key(i) && i != p ==> new_decls[i] == old_decls[i],
        child_added(old_decls[p], new_decls[p], name, id),
        new_decls[id.0].name@ == name,
        new_decls[id.0].parent == Some(DeclarationId(p)),
        new_decls[id.0].children@.len() == 0,
    ensures
        arena_wf(new_decls, id.0),
{
    assert forall|i: usize, e: ChildEntry| #[trigger] new_decls.contains_key(i) && #[trigger] new_decls[i].children@.contains(e) implies {
        &&& e.ids@.len() > 0
        &&& forall|c: DeclarationId| #[trigger] e.ids@.contains(c) ==> {
            &&& new_decls.contains_key(c.0)
            &&& c.0 != 0
            &&& new_decls[c.0].name@ == e.name@
            &&& new_decls[c.0].parent == Some(DeclarationId(i))
        }
    } by {
        if i == id.0 {
            assert(false);
        } else if i != p || old_decls[p].children@.contains(e) {
            assert(old_decls[i].children@.contains(e));
            assert forall|c: DeclarationId| #[trigger] e.ids@.contains(c) implies {
                &&& new_decls.contains_key(c.0)
                &&& c.0 != 0
                &&& new_decls[c.0].name@ == e.name@
                &&& new_decls[c.0].parent == Some(DeclarationId(i))
            } by {
                assert(old_decls.contains_key(c.0));
            }
        } else {
            let old_ids = find_child(old_decls[p].children@, name);
            if let Some(s) = old_ids {
                lemma_find_child_in(old_decls[p].children@, name);
                let k = choose|k: int| 0 <= k < old_decls[p].children@.len()
                    && (#[trigger] old_decls[p].children@[k]).name@ == name
                    && find_child(old_decls[p].children@, name) == Some(old_decls[p].children@[k].ids@);
                assert(old_decls[p].children@.contains(old_decls[p].children@[k]));
            }
            assert forall|c: DeclarationId| #[trigger] e.ids@.contains(c) implies {
                &&& new_decls.contains_key(c.0)
                &&& c.0 != 0
                &&& new_decls[c.0].name@ == e.name@
                &&& new_decls[c.0].parent == Some(DeclarationId(i))
            } by {
                if c != id {
                    if old_ids is None {
                        assert(e.ids@ == seq![id]);
                        assert(e.ids@[0] == id);
                        let j = choose|j: int| 0 <= j < e.ids@.len() && e.ids@[j] == c;
                        assert(false);
                    }
                    let s = old_ids->0;
                    assert(s.contains(c)) by {
                        if !s.contains(id) {
                            let j = choose|j: int| 0 <= j < s.push(id).len() && s.push(id)[j] == c;
                            assert(s[j] == c);
                        }
                    }
                    let k = choose|k: int| 0 <= k < old_decls[p].children@.len()
                        && (#[trigger] old_decls[p].children@[k]).name@ == name
                        && find_child(old_decls[p].children@, name) == Some(old_decls[p].children@[k].ids@);
                    let entry = old_decls[p].children@[k];
                    assert(old_decls[p].children@.contains(entry));
                    assert(entry.ids@.contains(c));
                    assert(old_decls.contains_key(c.0));
                    assert(c.0 != p);
                }
            }
        }
    }
}


/// Resolving a path extended by one name resolves the path, then the name.
proof fn lemma_resolve_push(
    d: Map<usize, DeclarationItem>,
    x: usize,
    path: Seq<Seq<char>>,
    n: Seq<char>,
    b: bool,
)
    ensures
        resolve_spec(d, x, path.push(n), b) == match resolve_spec(d, x, path, b) {
            None => None,
            Some(q) => resolve_spec(d, q, seq![n], b),
        },
    decreases path.len(),
{
    if path.len() == 0 {
        assert(path.push(n) =~= seq![n]);
    } else {
        assert(path.push(n).drop_first() =~= path.drop_first().push(n));
        assert(path.push(n)[0] == path[0]);
        if d.contains_key(x) {
            if let Some(ids) = find_child(d[x].children@, path[0]) {
                lemma_resolve_push(d, first_id(ids), path.drop_first(), n, b);
            }
        }
    }
}

/// Following a non-empty path leads to a younger declaration.
proof fn lemma_resolve_increases(d: Map<usize, DeclarationItem>, latest: usize, x: usize, path: Seq<Seq<char>>, b: bool)
    requires
        arena_wf(d, latest),
        path.len() > 0,
        resolve_spec(d, x, path, b) is Some,
    ensures
        d.contains_key(x),
        x < resolve_spec(d, x, path, b)->0,
    decreases path.len(),
{
    let ids = find_child(d[x].children@, path[0])->0;
    lemma_find_child_in(d[x].children@, path[0]);
    let k = choose|k: int| 0 <= k < d[x].children@.len() && (#[trigger] d[x].children@[k]).name@ == path[0]
        && find_child(d[x].children@, path[0]) == Some(d[x].children@[k].ids@);
    let e = d[x].children@[k];
    assert(d[x].children@.contains(e));
    assert(e.ids@.contains(e.ids@[0]));
    let c = first_id(ids);
    assert(d[c].parent == Some(DeclarationId(x)));
    if path.len() > 1 {
        lemma_resolve_increases(d, latest, c, path.drop_first(), b);
    }
}

/// A resolution only reads declarations older than where it ends, so it is
/// unaffected by changes to the others.
proof fn lemma_resolve_frame(
    old_d: Map<usize, DeclarationItem>,
    new_d: Map<usize, DeclarationItem>,
    latest: usize,
    x: usize,
    path: Seq<Seq<char>>,
    b: bool,
    y: usize,
)
    requires
        arena_wf(old_d, latest),
        resolve_spec(old_d, x, path, b) == Some(y),
        forall|q: usize| #[trigger] old_d.contains_key(q) && q < y ==> new_d.contains_key(q) && new_d[q] == old_d[q],
    ensures
        resolve_spec(new_d, x, path, b) == Some(y),
    decreases path.len(),
{
    if path.len() > 0 {
        lemma_resolve_increases(old_d, latest, x, path, b);
        let ids = find_child(old_d[x].children@, path[0])->0;
        let c = first_id(ids);
        if path.len() > 1 {
            lemma_resolve_increases(old_d, latest, c, path.drop_first(), b);
        }
        lemma_resolve_frame(old_d, new_d, latest, c, path.drop_first(), b, y);
    }
}

/// After a successful registration of a name not yet taken in its
/// namespace, resolving the namespace's path followed by the name gives the
/// new declaration.
pub proof fn law_registered_name_resolves(
    old_decls: Map<usize, DeclarationItem>,
    new_decls: Map<usize, DeclarationItem>,
    old_latest: usize,
    new_latest: usize,
    ns: Seq<Seq<char>>,
    name: Seq<char>,
    kind: DeclarationItemKind,
    annotation: TypedAnnotations,
    r: Option<DeclarationId>,
)
    requires
        arena_wf(old_decls, old_latest),
        old_latest < usize::MAX,
        registration(old_decls, new_decls, old_latest, new_latest, ns, name, kind, annotation, r),
        r is Some,
        find_child(old_decls[resolve_spec(old_decls, 0, ns, true)->0].children@, name) is None,
    ensures
        resolve_spec(new_decls, 0, ns.push(name), false) == Some(index_of(r->0)),
        resolve_spec(new_decls, 0, ns.push(name), true) == Some(index_of(r->0))
            <== old_decls[resolve_spec(old_decls, 0, ns, true)->0].kind is Namespace,
{
    let p = resolve_spec(old_decls, 0, ns, true)->0;
    let id = index_of(r->0);
    lemma_resolved_exists(old_decls, old_latest, 0, ns, true);
    lemma_resolve_frame(old_decls, new_decls, old_latest, 0, ns, true, p);
    lemma_resolve_as_declarations(old_decls, old_latest, 0, ns);
    lemma_resolve_frame(old_decls, new_decls, old_latest, 0, ns, false, p);
    lemma_resolve_push(new_decls, 0, ns, name, false);
    lemma_resolve_push(new_decls, 0, ns, name, true);
    assert(seq![name].drop_first() =~= Seq::<Seq<char>>::empty());
    assert(seq![name][0] == name);
    assert(ids_with(None, DeclarationId(id)) == seq![DeclarationId(id)]);
    assert(new_decls.contains_key(p));
    assert(find_child(new_decls[p].children@, name) == Some(seq![DeclarationId(id)]));
    assert(first_id(seq![DeclarationId(id)]) == id);
    assert(resolve_spec(new_decls, id, seq![name].drop_first(), false) == Some(id));
    assert(resolve_spec(new_decls, id, seq![name].drop_first(), true) == Some(id));
    assert(resolve_spec(new_decls, p, seq![name], false) == Some(id));
}

/// A path that resolves through namespaces resolves the same way when the
/// kinds are not looked at.
proof fn lemma_resolve_as_declarations(d: Map<usize, DeclarationItem>, latest: usize, x: usize, path: Seq<Seq<char>>)
    requires
        resolve_spec(d, x, path, true) is Some,
    ensures
        resolve_spec(d, x, path, false) == resolve_spec(d, x, path, true),
    decreases path.len(),
{
    if path.len() > 0 {
        let ids = find_child(d[x].children@, path[0])->0;
        lemma_resolve_as_declarations(d, latest, first_id(ids), path.drop_first());
    }
}

/// The fully qualified name of a namespace reached from the root by a path
/// is that path.
pub proof fn law_fqn_of_resolved(decls: Map<usize, DeclarationItem>, latest: usize, path: Seq<Seq<char>>)
    requires
        arena_wf(decls, latest),
        resolve_spec(decls, 0, path, true) is Some,
    ensures
        fqn_spec(decls, resolve_spec(decls, 0, path, true)->0) == path,
    decreases path.len(),
{
    if path.len() == 0 {
        assert(fqn_spec(decls, 0) == Seq::<Seq<char>>::empty());
    } else {
        let prefix = path.drop_last();
        let n = path.last();
        assert(prefix.push(n) =~= path);
        lemma_resolve_push(decls, 0, prefix, n, true);
        let q = resolve_spec(decls, 0, prefix, true)->0;
        law_fqn_of_resolved(decls, latest, prefix);
        lemma_resolved_exists(decls, latest, 0, prefix, true);
        let ids = find_child(decls[q].children@, n)->0;
        lemma_find_child_in(decls[q].children@, n);
        let k = choose|k: int| 0 <= k < decls[q].children@.len() && (#[trigger] decls[q].children@[k]).name@ == n
            && find_child(decls[q].children@, n) == Some(decls[q].children@[k].ids@);
        let e = decls[q].children@[k];
        assert(decls[q].children@.contains(e));
        assert(e.ids@.contains(e.ids@[0]));
        let y = first_id(ids);
        assert(seq![n].drop_first() =~= Seq::<Seq<char>>::empty());
        assert(seq![n][0] == n);
        assert(resolve_spec(decls, y, seq![n].drop_first(), true) == Some(y));
        assert(resolve_spec(decls, q, seq![n], true) == Some(y));
        assert(resolve_spec(decls, 0, path, true) == Some(y));
        assert(decls[y].parent == Some(DeclarationId(q)));
        assert(fqn_spec(decls, y) == fqn_spec(decls, q).push(n));
    }
}

} // verus!
