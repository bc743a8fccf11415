//! Type environments: append-only tables of types indexed by [TypeId],
//! optionally chained to a parent environment.
use vstd::prelude::*;

use crate::expand::{expand_text, expandable, expanded};
use crate::types::{
    bool_string, bool_text, copy_ids, fields_from, FunctionType, UnionType, IfaceType, PrimitiveKind, Type, TypeId, TypeModel,
};

verus! {

/// All identifiers of `ids` are below `bound`.
pub open spec fn ids_below(ids: Seq<TypeId>, bound: nat) -> bool {
    forall|i: int| 0 <= i < ids.len() ==> (#[trigger] ids[i]).0 < bound
}

/// All keys and values of `fields` are below `bound`.
pub open spec fn fields_below(fields: Seq<(TypeId, TypeId)>, bound: nat) -> bool {
    forall|i: int| 0 <= i < fields.len() ==> (#[trigger] fields[i]).0.0 < bound && fields[i].1.0 < bound
}

/// All identifiers referenced by a type are below `bound`.
pub open spec fn refs_below(t: TypeModel, bound: nat) -> bool {
    match t {
        TypeModel::Function { params, results } => ids_below(params, bound) && ids_below(
            results,
            bound,
        ),
        TypeModel::Require { params, results } => ids_below(params, bound) && ids_below(
            results,
            bound,
        ),
        TypeModel::Union { types } => ids_below(types, bound),
        TypeModel::Iface { fields } => fields_below(fields, bound),
        TypeModel::Global { fields } => fields_below(fields, bound),
        _ => true,
    }
}

/// Position of `t` in `s`, if `t` occurs in `s`.
pub open spec fn find_type(s: Seq<TypeModel>, t: TypeModel) -> Option<int> {
    if exists|i: int| 0 <= i < s.len() && s[i] == t {
        Some(choose|i: int| 0 <= i < s.len() && s[i] == t)
    } else {
        None
    }
}

/// No type occurs twice in `s`.
pub open spec fn unique_types(s: Seq<TypeModel>) -> bool {
    forall|i: int, j: int| 0 <= i < s.len() && 0 <= j < s.len() && i != j ==> s[i] != s[j]
}

/// Models of the types of a vector.
pub open spec fn models(v: Seq<Type>) -> Seq<TypeModel> {
    v.map_values(|t: Type| t@)
}

/// Types every root environment starts with, in identifier order.
pub open spec fn root_types() -> Seq<TypeModel> {
    seq![
        TypeModel::Never,
        TypeModel::Any,
        TypeModel::Unknown,
        TypeModel::Primitive { kind: PrimitiveKind::Nil, metatable: TypeId(3) },
        TypeModel::Primitive { kind: PrimitiveKind::Boolean, metatable: TypeId(3) },
        TypeModel::Primitive { kind: PrimitiveKind::Number, metatable: TypeId(3) },
        TypeModel::Primitive { kind: PrimitiveKind::String, metatable: TypeId(3) },
        TypeModel::Require { params: seq![TypeId(6)], results: seq![] },
        TypeModel::Global { fields: seq![] },
    ]
}

/// TypeEnvironment define an environment in our type system.
#[derive(Debug)]
pub struct TypeEnvironment {
    parent: Option<Box<TypeEnvironment>>,
    types: Vec<Type>,
    offset: usize,
}

impl TypeEnvironment {
    /// Types registered in this environment itself, first at identifier
    /// [Self::base].
    pub closed spec fn frame(&self) -> Seq<TypeModel> {
        models(self.types@)
    }

    /// Identifier of the first type registered in this environment itself.
    pub closed spec fn base(&self) -> nat {
        self.offset as nat
    }

    /// Parent environment, if any.
    pub closed spec fn parent_of(&self) -> Option<TypeEnvironment> {
        match self.parent {
            Some(p) => Some(*p),
            None => None,
        }
    }

    /// Identifier the next registered type gets.
    pub open spec fn next(&self) -> nat {
        self.base() + self.frame().len()
    }

    /// Type associated with `id`: below [Self::base] it is looked up in the
    /// parent environment, above it in this environment's own types.
    pub open spec fn spec_lookup(&self, id: TypeId) -> Option<TypeModel>
        decreases self,
    {
        if id.0 < self.base() {
            match self.parent_of() {
                Some(p) => p.spec_lookup(id),
                None => None,
            }
        } else if id.0 < self.next() {
            Some(self.frame()[id.0 - self.base()])
        } else {
            None
        }
    }

    /// Identifier associated with type `t`: its position in this
    /// environment's own types, or else in the parent environment.
    pub open spec fn spec_reverse_lookup(&self, t: TypeModel) -> Option<TypeId>
        decreases self,
    {
        match find_type(self.frame(), t) {
            Some(i) => Some(TypeId((self.base() + i) as usize)),
            None => match self.parent_of() {
                Some(p) => p.spec_reverse_lookup(t),
                None => None,
            },
        }
    }

    /// Every type of the chain of environments only refers to identifiers
    /// smaller than its own: no type refers to itself, directly or through
    /// others. Walking the types that a type refers to then ends.
    pub open spec fn refs_ordered(&self) -> bool
        decreases self,
    {
        &&& forall|i: int|
            0 <= i < self.frame().len() ==> refs_below(#[trigger] self.frame()[i], (self.base() + i) as nat)
        &&& match self.parent_of() {
            Some(p) => p.refs_ordered(),
            None => true,
        }
    }

    /// Well-formedness: identifiers fit in `usize`, no type is registered
    /// twice in the chain of environments, and identifiers start at 0 in the
    /// root environment and where the parent's end in a child environment.
    pub open spec fn wf(&self) -> bool
        decreases self,
    {
        &&& self.next() <= usize::MAX
        &&& unique_types(self.frame())
        &&& match self.parent_of() {
            Some(p) => {
                &&& p.wf()
                &&& self.base() == p.next()
                &&& forall|i: int|
                    0 <= i < self.frame().len() ==> p.spec_reverse_lookup(#[trigger] self.frame()[i])
                        is None
            },
            None => self.base() == 0,
        }
    }

    /// Root environment whose types are `tys`.
    pub open spec fn is_root_with(&self, tys: Seq<TypeModel>) -> bool {
        &&& self.parent_of() is None
        &&& self.base() == 0
        &&& self.frame() == tys
    }

    /// In a root environment, lookups and reverse lookups read its own types.
    pub proof fn lemma_root(&self)
        requires
            self.parent_of() is None,
            self.base() == 0,
        ensures
            forall|id: TypeId| #[trigger]
                self.spec_lookup(id) == (if id.0 < self.frame().len() {
                    Some(self.frame()[id.0 as int])
                } else {
                    None
                }),
            forall|t: TypeModel| #[trigger]
                self.spec_reverse_lookup(t) == (match find_type(self.frame(), t) {
                    Some(i) => Some(TypeId(i as usize)),
                    None => None,
                }),
    {
    }

    /// Creates a new root type environment.
    pub fn new() -> (env: TypeEnvironment)
        ensures
            env.wf(),
            env.refs_ordered(),
            env.is_root_with(root_types()),
    {
        let mut types: Vec<Type> = Vec::new();
        types.push(Type::Never);
        types.push(Type::Any);
        types.push(Type::Unknown);
        types.push(Type::NIL());
        types.push(Type::BOOLEAN());
        types.push(Type::NUMBER());
        types.push(Type::STRING());
        let mut params: Vec<TypeId> = Vec::new();
        params.push(TypeId::STRING());
        types.push(Type::Require(FunctionType::new(params, Vec::new())));
        types.push(Type::Global(IfaceType::new(Vec::new())));
        let env = TypeEnvironment { parent: None, types, offset: 0 };
        proof {
            assert(env.frame() =~= root_types());
            reveal_with_fuel(fields_from, 1);
        }
        env
    }

    /// Creates a root environment with the builtin types only, without
    /// `require` and `_G`.
    pub(crate) fn new_builtins() -> (env: TypeEnvironment)
        ensures
            env.wf(),
            env.refs_ordered(),
            env.is_root_with(root_types().take(7)),
    {
        let mut types: Vec<Type> = Vec::new();
        types.push(Type::Never);
        types.push(Type::Any);
        types.push(Type::Unknown);
        types.push(Type::NIL());
        types.push(Type::BOOLEAN());
        types.push(Type::NUMBER());
        types.push(Type::STRING());
        let env = TypeEnvironment { parent: None, types, offset: 0 };
        proof {
            assert(env.frame() =~= root_types().take(7));
        }
        env
    }

    /// Creates a new [TypeEnvironment] with [self] as parent environment.
    pub fn child_env(self) -> (env: TypeEnvironment)
        requires
            self.wf(),
        ensures
            env.wf(),
            env.parent_of() == Some(self),
            self.refs_ordered() ==> env.refs_ordered(),
            env.frame() == Seq::<TypeModel>::empty(),
            env.base() == self.next(),
    {
        let offset = self.offset + self.types.len();
        let env = TypeEnvironment { parent: Some(Box::new(self)), types: Vec::new(), offset };
        proof {
            assert(env.frame() =~= Seq::<TypeModel>::empty());
        }
        env
    }

    /// Returns parent env along a boolean flag which is true if returned env
    /// is the root env. Calling this function on root environment always returns
    /// `(self, true)`.
    pub fn parent_env(self) -> (r: (TypeEnvironment, bool))
        requires
            self.wf(),
        ensures
            r.0.wf(),
            self.refs_ordered() ==> r.0.refs_ordered(),
            match self.parent_of() {
                Some(p) => r.0 == p && r.1 == (p.parent_of() is None),
                None => r.0 == self && r.1,
            },
    {
        match self.parent {
            Some(p) => {
                let is_root = p.parent.is_none();
                (*p, is_root)
            },
            None => (self, true),
        }
    }

    /// Returns [Type] associated to given [TypeId] within the environment.
    pub fn lookup(&self, id: TypeId) -> (r: Option<&Type>)
        ensures
            match r {
                Some(t) => self.spec_lookup(id) == Some(t@),
                None => self.spec_lookup(id) is None,
            },
        decreases self,
    {
        if id.0 < self.offset {
            if let Some(parent) = &self.parent {
                parent.lookup(id)
            } else {
                None
            }
        } else if id.0 - self.offset < self.types.len() {
            Some(&self.types[id.0 - self.offset])
        } else {
            None
        }
    }

    /// Position of `t` among this environment's own types.
    fn find_own(&self, t: &Type) -> (r: Option<usize>)
        ensures
            match r {
                Some(i) => i < self.frame().len() && self.frame()[i as int] == t@,
                None => find_type(self.frame(), t@) is None,
            },
    {
        let mut i: usize = 0;
        while i < self.types.len()
            invariant
                i <= self.types.len(),
                forall|j: int| 0 <= j < i ==> self.frame()[j] != t@,
            decreases self.types.len() - i,
        {
            if self.types[i].same_as(t) {
                return Some(i);
            }
            i += 1;
        }
        None
    }

    /// Returns [TypeId] associated to given [Type] within the environment.
    pub fn reverse_lookup(&self, t: &Type) -> (r: Option<TypeId>)
        requires
            self.wf(),
        ensures
            r == self.spec_reverse_lookup(t@),
        decreases self,
    {
        match self.find_own(t) {
            Some(i) => {
                proof {
                    let k = choose|k: int|
                        0 <= k < self.frame().len() && self.frame()[k] == t@;
                    assert(k == i);
                }
                Some(TypeId(self.offset + i))
            },
            None => {
                if let Some(parent) = &self.parent {
                    parent.reverse_lookup(t)
                } else {
                    None
                }
            },
        }
    }

    /// Registers given type in the environment. If type is already registered,
    /// associated type id is returned.
    /// Any type can be registered, also one that refers to the identifier
    /// it gets (see [Self::next_id]); the types that refer only to earlier
    /// identifiers keep the environment [Self::refs_ordered].
    pub fn register(&mut self, t: Type) -> (id: TypeId)
        requires
            old(self).wf(),
            old(self).base() > 0 ==> old(self).next() < usize::MAX,
        ensures
            final(self).wf(),
            old(self).refs_ordered() && refs_below(t@, old(self).next()) ==> final(self).refs_ordered(),
            final(self).base() == old(self).base(),
            final(self).parent_of() == old(self).parent_of(),
            match old(self).spec_reverse_lookup(t@) {
                Some(found) => id == found && final(self).frame() == old(self).frame(),
                None => {
                    &&& id.0 == old(self).next()
                    &&& final(self).frame() == old(self).frame().push(t@)
                },
            },
    {
        if let Some(id) = self.reverse_lookup(&t) {
            return id;
        }
        let ghost before = self.frame();
        let id = self.next_id();
        self.types.push(t);
        let n = self.types.len();
        assert(self.frame().len() == n);
        proof {
            assert(self.frame() =~= before.push(t@));
            assert(find_type(before, t@) is None);
            assert forall|i: int, j: int|
                0 <= i < self.frame().len() && 0 <= j < self.frame().len() && i != j implies self.frame()[i]
                != self.frame()[j] by {
                if i < before.len() && j < before.len() {
                } else if i == before.len() {
                    assert(self.frame()[j] == before[j]);
                } else {
                    assert(self.frame()[i] == before[i]);
                }
            }
            if old(self).refs_ordered() && refs_below(t@, old(self).next()) {
                assert forall|i: int| 0 <= i < self.frame().len() implies refs_below(
                    #[trigger] self.frame()[i],
                    (self.base() + i) as nat,
                ) by {
                    if i < before.len() {
                        assert(self.frame()[i] == before[i]);
                    }
                }
            }
        }
        id
    }


    /// Every type found in an environment whose references are ordered only
    /// refers to identifiers smaller than its own.
    pub proof fn lemma_lookup_refs_below(&self, id: TypeId)
        requires
            self.refs_ordered(),
            self.spec_lookup(id) is Some,
        ensures
            refs_below(self.spec_lookup(id).unwrap(), id.0 as nat),
        decreases self,
    {
        if id.0 < self.base() {
            match self.parent_of() {
                Some(p) => p.lemma_lookup_refs_below(id),
                None => {},
            }
        } else {
            let i = id.0 - self.base();
            assert(refs_below(self.frame()[i], (self.base() + i) as nat));
        }
    }

    /// Types associated with the type of `id`: the primitive of a literal or
    /// primitive type, the members of a union, and the types associated
    /// with every parameter, result, field key and field value.
    pub open spec fn spec_find_associated(&self, id: TypeId) -> Option<Seq<TypeId>>
        decreases id.0 + 1, 0nat,
    {
        match self.spec_lookup(id) {
            None => None,
            Some(t) => Some(
                match t {
                    TypeModel::Literal { kind, .. } => seq![kind.spec_type_id()],
                    TypeModel::Primitive { kind, .. } => seq![kind.spec_type_id()],
                    TypeModel::Function { params, results } => self.associated_of_ids(params, id)
                        + self.associated_of_ids(results, id),
                    TypeModel::Require { params, results } => self.associated_of_ids(params, id)
                        + self.associated_of_ids(results, id),
                    TypeModel::Union { types } => types,
                    TypeModel::Iface { fields } => self.associated_of_fields(fields, id),
                    TypeModel::Global { fields } => self.associated_of_fields(fields, id),
                    _ => seq![],
                },
            ),
        }
    }

    /// Concatenation of the associated types of each identifier below
    /// `bound`, skipping identifiers without a type.
    pub open spec fn associated_of_ids(&self, ids: Seq<TypeId>, bound: TypeId) -> Seq<TypeId>
        decreases bound.0, ids.len(),
    {
        if ids.len() == 0 {
            seq![]
        } else {
            let rest = self.associated_of_ids(ids.drop_last(), bound);
            let x = ids.last();
            if x.0 < bound.0 {
                match self.spec_find_associated(x) {
                    Some(v) => rest + v,
                    None => rest,
                }
            } else {
                rest
            }
        }
    }

    /// Concatenation of the associated types of each field key then value.
    pub open spec fn associated_of_fields(&self, fields: Seq<(TypeId, TypeId)>, bound: TypeId) -> Seq<
        TypeId,
    >
        decreases bound.0, fields.len(),
    {
        if fields.len() == 0 {
            seq![]
        } else {
            let rest = self.associated_of_fields(fields.drop_last(), bound);
            let (k, v) = fields.last();
            let with_key = if k.0 < bound.0 {
                match self.spec_find_associated(k) {
                    Some(a) => rest + a,
                    None => rest,
                }
            } else {
                rest
            };
            if v.0 < bound.0 {
                match self.spec_find_associated(v) {
                    Some(a) => with_key + a,
                    None => with_key,
                }
            } else {
                with_key
            }
        }
    }

    /// Appends the types associated with `x` to `out`.
    fn extend_associated(&self, out: &mut Vec<TypeId>, x: TypeId, Ghost(bound): Ghost<TypeId>)
        requires
            self.wf(),
            self.refs_ordered(),
            x.0 < bound.0,
        ensures
            final(out)@ == match self.spec_find_associated(x) {
                Some(v) => old(out)@ + v,
                None => old(out)@,
            },
        decreases x.0 + 1, 3nat,
    {
        if let Some(mut v) = self.find_associated(x) {
            out.append(&mut v);
        }
    }

    /// Concatenation of the types associated with each identifier of `ids`.
    fn associated_ids(&self, ids: &Vec<TypeId>, Ghost(bound): Ghost<TypeId>) -> (r: Vec<TypeId>)
        requires
            self.wf(),
            self.refs_ordered(),
            forall|i: int| 0 <= i < ids@.len() ==> (#[trigger] ids@[i]).0 < bound.0,
        ensures
            r@ == self.associated_of_ids(ids@, bound),
        decreases bound.0 + 1, 0nat,
    {
        let mut result: Vec<TypeId> = Vec::new();
        let mut i: usize = 0;
        while i < ids.len()
            invariant
                self.wf(),
                self.refs_ordered(),
            self.refs_ordered(),
                i <= ids.len(),
                forall|i: int| 0 <= i < ids@.len() ==> (#[trigger] ids@[i]).0 < bound.0,
                result@ == self.associated_of_ids(ids@.take(i as int), bound),
            decreases ids.len() - i,
        {
            assert(ids@.take(i + 1).drop_last() =~= ids@.take(i as int));
            assert(ids@[i as int].0 < bound.0);
            self.extend_associated(&mut result, ids[i], Ghost(bound));
            i += 1;
        }
        assert(ids@.take(i as int) =~= ids@);
        result
    }

    /// Concatenation of the types associated with each field key then value.
    fn associated_fields(&self, fields: &Vec<(TypeId, TypeId)>, Ghost(bound): Ghost<TypeId>) -> (r:
        Vec<TypeId>)
        requires
            self.wf(),
            self.refs_ordered(),
            forall|i: int|
                0 <= i < fields@.len() ==> (#[trigger] fields@[i]).0.0 < bound.0 && fields@[i].1.0
                    < bound.0,
        ensures
            r@ == self.associated_of_fields(fields@, bound),
        decreases bound.0 + 1, 0nat,
    {
        let mut result: Vec<TypeId> = Vec::new();
        let mut i: usize = 0;
        while i < fields.len()
            invariant
                self.wf(),
                self.refs_ordered(),
            self.refs_ordered(),
                i <= fields.len(),
                forall|i: int|
                    0 <= i < fields@.len() ==> (#[trigger] fields@[i]).0.0 < bound.0
                        && fields@[i].1.0 < bound.0,
                result@ == self.associated_of_fields(fields@.take(i as int), bound),
            decreases fields.len() - i,
        {
            assert(fields@.take(i + 1).drop_last() =~= fields@.take(i as int));
            let (k, v) = fields[i];
            assert(fields@[i as int].0.0 < bound.0);
            self.extend_associated(&mut result, k, Ghost(bound));
            self.extend_associated(&mut result, v, Ghost(bound));
            i += 1;
        }
        assert(fields@.take(i as int) =~= fields@);
        result
    }

    /// Finds all types contained within type with the given [TypeId] and returns
    /// them. The environment must hold no type that refers to itself
    /// ([Self::refs_ordered]), since the search would then not end.
    pub fn find_associated(&self, id: TypeId) -> (r: Option<Vec<TypeId>>)
        requires
            self.wf(),
            self.refs_ordered(),
        ensures
            match r {
                Some(v) => self.spec_find_associated(id) == Some(v@),
                None => self.spec_find_associated(id) is None,
            },
        decreases id.0 + 1, 2nat,
    {
        let t = match self.lookup(id) {
            Some(t) => t,
            None => return None,
        };
        proof {
            self.lemma_lookup_refs_below(id);
        }
        let mut result: Vec<TypeId> = Vec::new();
        match t {
            Type::Never => {},
            Type::Literal { kind, .. } => result.push(kind.type_id()),
            Type::Primitive { kind, .. } => result.push(kind.type_id()),
            Type::Function(function) => {
                let mut ps = self.associated_ids(&function.params, Ghost(id));
                let mut rs = self.associated_ids(&function.results, Ghost(id));
                result.append(&mut ps);
                result.append(&mut rs);
            },
            Type::Require(function) => {
                let mut ps = self.associated_ids(&function.params, Ghost(id));
                let mut rs = self.associated_ids(&function.results, Ghost(id));
                result.append(&mut ps);
                result.append(&mut rs);
            },
            Type::Union(u) => {
                result = copy_ids(&u.types);
            },
            Type::Iface(iface) => {
                result = self.associated_fields(iface.fields(), Ghost(id));
            },
            Type::Global(iface) => {
                result = self.associated_fields(iface.fields(), Ghost(id));
            },
            Type::Any => {},
            Type::Unknown => {},
        }
        Some(result)
    }


    /// A type found by [Self::spec_lookup] has an identifier below
    /// [Self::next].
    pub proof fn lemma_lookup_below_next(&self, id: TypeId)
        requires
            self.spec_lookup(id) is Some,
        ensures
            id.0 < self.next(),
    {
    }

    /// The type `t` is registered and gets identifier `id`: either it was
    /// already found by [Self::spec_reverse_lookup], or it is appended to
    /// this environment's own types.
    pub open spec fn registers(&self, t: TypeModel, id: TypeId, after: TypeEnvironment) -> bool {
        &&& after.wf()
        &&& after.base() == self.base()
        &&& after.parent_of() == self.parent_of()
        &&& match self.spec_reverse_lookup(t) {
            Some(found) => id == found && after.frame() == self.frame(),
            None => {
                &&& id.0 == self.next()
                &&& after.frame() == self.frame().push(t)
            },
        }
    }

    /// The identifier that a reverse lookup finds for a type is looked up
    /// as that type.
    pub proof fn lemma_reverse_then_lookup(&self, t: TypeModel)
        requires
            self.wf(),
            self.spec_reverse_lookup(t) is Some,
        ensures
            self.spec_lookup(self.spec_reverse_lookup(t).unwrap()) == Some(t),
        decreases self,
    {
        match find_type(self.frame(), t) {
            Some(i) => {
                assert(0 <= i < self.frame().len() && self.frame()[i] == t);
            },
            None => {
                let p = self.parent_of().unwrap();
                p.lemma_reverse_then_lookup(t);
                p.lemma_lookup_below_next(p.spec_reverse_lookup(t).unwrap());
            },
        }
    }

    /// In every environment built by [Self::new], [Self::register],
    /// [Self::child_env] and [Self::parent_env] (all of them well formed), a
    /// type is found by reverse lookup under exactly the identifier that
    /// looks it up: lookup and reverse lookup agree.
    pub proof fn law_lookup_reverse_lookup_agree(&self, id: TypeId, t: TypeModel)
        requires
            self.wf(),
        ensures
            self.spec_lookup(id) == Some(t) <==> self.spec_reverse_lookup(t) == Some(id),
        decreases self,
    {
        if self.spec_reverse_lookup(t) == Some(id) {
            self.lemma_reverse_then_lookup(t);
        }
        if self.spec_lookup(id) == Some(t) {
            if id.0 < self.base() {
                let p = self.parent_of().unwrap();
                p.law_lookup_reverse_lookup_agree(id, t);
                if find_type(self.frame(), t) is Some {
                    let k = choose|k: int| 0 <= k < self.frame().len() && self.frame()[k] == t;
                    assert(p.spec_reverse_lookup(self.frame()[k]) is None);
                }
            } else {
                let k = (id.0 - self.base()) as int;
                assert(self.frame()[k] == t);
                let j = choose|j: int| 0 <= j < self.frame().len() && self.frame()[j] == t;
                assert(j == k);
            }
        }
    }

    /// A registered type is looked up under the identifier that registering
    /// it returned.
    pub proof fn law_register_then_lookup(&self, t: TypeModel, id: TypeId, after: TypeEnvironment)
        requires
            self.wf(),
            self.registers(t, id, after),
        ensures
            after.spec_lookup(id) == Some(t),
    {
        match self.spec_reverse_lookup(t) {
            Some(found) => {
                self.lemma_reverse_then_lookup(t);
            },
            None => {
                assert(after.frame()[id.0 - after.base()] == t);
            },
        }
    }

    /// Creates a new number literal type in the environment, the number
    /// written `text`.
    pub fn number_literal(&mut self, text: String) -> (id: TypeId)
        requires
            old(self).wf(),
            old(self).base() > 0 ==> old(self).next() < usize::MAX,
        ensures
            old(self).registers(
                TypeModel::Literal { value: text@, kind: PrimitiveKind::Number },
                id,
                *final(self),
            ),
            old(self).refs_ordered() ==> final(self).refs_ordered(),
    {
        self.register(Type::Literal { value: text, kind: PrimitiveKind::Number })
    }

    /// Creates a new boolean literal type in the environment.
    pub fn boolean(&mut self, value: bool) -> (id: TypeId)
        requires
            old(self).wf(),
            old(self).base() > 0 ==> old(self).next() < usize::MAX,
        ensures
            old(self).registers(
                TypeModel::Literal { value: bool_text(value), kind: PrimitiveKind::Boolean },
                id,
                *final(self),
            ),
            old(self).refs_ordered() ==> final(self).refs_ordered(),
    {
        self.register(Type::Literal { value: bool_string(value), kind: PrimitiveKind::Boolean })
    }

    /// Whether `lit` is written between double quotes, as
    /// [Self::string] requires (it refuses other literals as unquoted).
    pub fn is_quoted(lit: &str) -> (r: bool)
        ensures
            r == (lit@.len() >= 2 && lit@[0] == '"' && lit@.last() == '"'),
    {
        let n = lit.unicode_len();
        n >= 2 && lit.get_char(0) == '"' && lit.get_char(n - 1) == '"'
    }

    /// Creates a new string literal type in the environment. The literal
    /// must be written between double quotes ([Self::is_quoted]).
    pub fn string(&mut self, lit: String) -> (id: TypeId)
        requires
            old(self).wf(),
            old(self).base() > 0 ==> old(self).next() < usize::MAX,
            lit@.len() >= 2,
            lit@[0] == '"',
            lit@.last() == '"',
        ensures
            old(self).registers(
                TypeModel::Literal { value: lit@, kind: PrimitiveKind::String },
                id,
                *final(self),
            ),
            old(self).refs_ordered() ==> final(self).refs_ordered(),
    {
        self.register(Type::Literal { value: lit, kind: PrimitiveKind::String })
    }

    /// Creates a new [FunctionType] type in the environment. Every parameter
    /// must be a type of the environment or the identifier that the new
    /// type gets ([Self::next_id]), which makes a function that takes
    /// itself.
    pub fn function(&mut self, params: Vec<TypeId>, results: Vec<TypeId>) -> (id: TypeId)
        requires
            old(self).wf(),
            old(self).base() > 0 ==> old(self).next() < usize::MAX,
            forall|i: int|
                0 <= i < params@.len() ==> old(self).spec_lookup(#[trigger] params@[i]) is Some
                    || params@[i].0 == old(self).next(),
        ensures
            old(self).registers(
                TypeModel::Function { params: params@, results: results@ },
                id,
                *final(self),
            ),
            old(self).refs_ordered() && ids_below(params@, old(self).next()) && ids_below(
                results@,
                old(self).next(),
            ) ==> final(self).refs_ordered(),
    {
        self.register(Type::Function(FunctionType::new(params, results)))
    }

    /// Members of `types` where every union type is replaced by its members.
    pub open spec fn flatten_union(&self, types: Seq<TypeId>) -> Seq<TypeId>
        decreases types.len(),
    {
        if types.len() == 0 {
            seq![]
        } else {
            let rest = self.flatten_union(types.drop_last());
            let x = types.last();
            match self.spec_lookup(x) {
                Some(TypeModel::Union { types: members }) => rest + members,
                _ => rest.push(x),
            }
        }
    }

    /// Flattening members below [Self::next] gives members below it.
    pub proof fn lemma_flatten_below(&self, types: Seq<TypeId>)
        requires
            self.refs_ordered(),
            ids_below(types, self.next()),
        ensures
            ids_below(self.flatten_union(types), self.next()),
        decreases types.len(),
    {
        if types.len() > 0 {
            let init = types.drop_last();
            assert forall|i: int| 0 <= i < init.len() implies (#[trigger] init[i]).0 < self.next() by {
                assert(init[i] == types[i]);
            }
            self.lemma_flatten_below(init);
            let x = types.last();
            assert(types[types.len() - 1] == x);
            if self.spec_lookup(x) is Some {
                self.lemma_lookup_refs_below(x);
            }
        }
    }

    /// Creates a new [UnionType] type in the environment, flattening member
    /// unions. A union of a single type is that type. Every member must be
    /// a type of the environment or the identifier that the new type gets
    /// ([Self::next_id]).
    pub fn union(&mut self, types: Vec<TypeId>) -> (id: TypeId)
        requires
            old(self).wf(),
            old(self).base() > 0 ==> old(self).next() < usize::MAX,
            forall|i: int|
                0 <= i < types@.len() ==> old(self).spec_lookup(#[trigger] types@[i]) is Some
                    || types@[i].0 == old(self).next(),
        ensures
            old(self).flatten_union(types@).len() == 1 ==> id == old(self).flatten_union(
                types@,
            )[0] && *final(self) == *old(self),
            old(self).flatten_union(types@).len() != 1 ==> old(self).registers(
                TypeModel::Union { types: old(self).flatten_union(types@) },
                id,
                *final(self),
            ),
            old(self).refs_ordered() && ids_below(types@, old(self).next())
                ==> final(self).refs_ordered(),
    {
        let mut flat: Vec<TypeId> = Vec::new();
        let mut i: usize = 0;
        while i < types.len()
            invariant
                i <= types.len(),
                flat@ == self.flatten_union(types@.take(i as int)),
            decreases types.len() - i,
        {
            let x = types[i];
            assert(types@.take(i + 1).drop_last() =~= types@.take(i as int));
            let mut members: Option<Vec<TypeId>> = None;
            match self.lookup(x) {
                Some(Type::Union(u)) => {
                    members = Some(copy_ids(&u.types));
                },
                _ => {},
            }
            match members {
                Some(mut m) => {
                    flat.append(&mut m);
                },
                None => {
                    flat.push(x);
                },
            }
            i += 1;
        }
        assert(types@.take(i as int) =~= types@);
        proof {
            if self.refs_ordered() && ids_below(types@, self.next()) {
                self.lemma_flatten_below(types@);
            }
        }
        if flat.len() == 1 {
            return flat[0];
        }
        self.register(Type::Union(UnionType::new(flat)))
    }

    /// The type of `id` is a literal type.
    pub open spec fn has_literal(&self, id: TypeId) -> bool {
        self.spec_lookup(id) matches Some(TypeModel::Literal { .. })
    }

    /// Creates a new [IfaceType] type in the environment. Every key must be
    /// a literal type of the environment, every value a type of the
    /// environment; either may also be the identifier that the new type gets
    /// ([Self::next_id]).
    pub fn iface(&mut self, pairs: Vec<(TypeId, TypeId)>) -> (id: TypeId)
        requires
            old(self).wf(),
            old(self).base() > 0 ==> old(self).next() < usize::MAX,
            forall|i: int|
                0 <= i < fields_from(pairs@).len() ==> {
                    let (k, v) = #[trigger] fields_from(pairs@)[i];
                    &&& old(self).has_literal(k) || k.0 == old(self).next()
                    &&& old(self).spec_lookup(v) is Some || v.0 == old(self).next()
                },
        ensures
            old(self).registers(
                TypeModel::Iface { fields: fields_from(pairs@) },
                id,
                *final(self),
            ),
            old(self).refs_ordered() && fields_below(pairs@, old(self).next())
                ==> final(self).refs_ordered(),
    {
        let iface = IfaceType::new(pairs);
        proof {
            if old(self).refs_ordered() && fields_below(pairs@, old(self).next()) {
                crate::normalize::lemma_fields_from_in(pairs@);
                let fs = fields_from(pairs@);
                assert forall|j: int| 0 <= j < fs.len() implies (#[trigger] fs[j]).0.0 < old(self).next()
                    && fs[j].1.0 < old(self).next() by {
                    assert(pairs@.contains(fs[j]));
                    let n = choose|n: int| 0 <= n < pairs@.len() && pairs@[n] == fs[j];
                }
            }
        }
        self.register(Type::Iface(iface))
    }

    /// Replaces each `TypeId(n)` in `text` by the text of the type it names
    /// ([expanded]); a `#` right after it is dropped. `text` is the value to
    /// show as it displays, with `{:#}` where `alternate` is asked for; the
    /// types' texts are the same either way.
    pub fn fmt(&self, text: &str, alternate: bool) -> (r: String)
        requires
            self.wf(),
            expandable(*self, text@, true),
        ensures
            r@ == expanded(*self, text@, true),
    {
        expand_text(self, text, true)
    }

    /// Next id returns the identifier that the next newly registered type
    /// gets.
    pub fn next_id(&self) -> (id: TypeId)
        requires
            self.next() <= usize::MAX,
        ensures
            id.0 == self.next(),
    {
        TypeId(self.offset + self.types.len())
    }
}

} // verus!
