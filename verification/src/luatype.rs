//! The first Lua type checker: its root environment holds the builtin types
//! only, types are registered by the caller, and a union source is checked
//! member by member before a target interface is.
use vstd::prelude::*;

use crate::assign::{assignable, can_assign_core, measure, res_model};
use crate::env;
use crate::env::{find_type, refs_below, root_types};
use crate::errors::{CheckErr, TypeCheckError};
use crate::height::extends;
use crate::normalize::{
    field_type, field_type_of, lookup_root, norm, normalize_type, reg, register_root, root_ok,
    valid, wf_types,
};
use crate::expand::{expand_text, expandable, expanded};
use crate::text::{type_string, type_text};
use crate::types::{Type, TypeId, TypeModel};

verus! {

/// TypeEnvironment define an environment in our type system.
#[derive(Debug)]
pub struct TypeEnvironment {
    inner: env::TypeEnvironment,
}

impl TypeEnvironment {
    /// The environment of the type system that this one is.
    pub closed spec fn inner_env(&self) -> env::TypeEnvironment {
        self.inner
    }

    /// Types registered in this environment itself.
    pub open spec fn frame(&self) -> Seq<TypeModel> {
        self.inner_env().frame()
    }

    /// Well-formedness ([env::TypeEnvironment::wf]).
    pub open spec fn wf(&self) -> bool {
        self.inner_env().wf()
    }

    /// No type refers to itself ([env::TypeEnvironment::refs_ordered]).
    pub open spec fn refs_ordered(&self) -> bool {
        self.inner_env().refs_ordered()
    }

    /// Creates a new root type environment holding the builtin types.
    pub fn new() -> (env: TypeEnvironment)
        ensures
            env.wf(),
            env.refs_ordered(),
            env.inner_env().is_root_with(root_types().take(7)),
    {
        TypeEnvironment { inner: env::TypeEnvironment::new_builtins() }
    }

    /// Creates a new [TypeEnvironment] with [self] as parent environment.
    pub fn child_env(self) -> (r: TypeEnvironment)
        requires
            self.wf(),
        ensures
            r.wf(),
            r.inner_env().parent_of() == Some(self.inner_env()),
            r.frame() == Seq::<TypeModel>::empty(),
            r.inner_env().base() == self.inner_env().next(),
            self.refs_ordered() ==> r.refs_ordered(),
    {
        TypeEnvironment { inner: self.inner.child_env() }
    }

    /// Returns parent env along a boolean flag which is true if returned env
    /// is the root env. Calling this function on root environment always returns
    /// `(self, true)`.
    pub fn parent_env(self) -> (r: (TypeEnvironment, bool))
        requires
            self.wf(),
        ensures
            r.0.wf(),
            self.refs_ordered() ==> r.0.refs_ordered(),
            match self.inner_env().parent_of() {
                Some(p) => r.0.inner_env() == p && r.1 == (p.parent_of() is None),
                None => r.0 == self && r.1,
            },
    {
        let (inner, is_root) = self.inner.parent_env();
        (TypeEnvironment { inner }, is_root)
    }

    /// Returns type associated to given id within the environment.
    pub fn lookup(&self, id: TypeId) -> (r: Option<&Type>)
        ensures
            match r {
                Some(t) => self.inner_env().spec_lookup(id) == Some(t@),
                None => self.inner_env().spec_lookup(id) is None,
            },
    {
        self.inner.lookup(id)
    }

    /// Returns type id associated to given type within the environment.
    pub fn reverse_lookup(&self, t: &Type) -> (r: Option<TypeId>)
        requires
            self.wf(),
        ensures
            r == self.inner_env().spec_reverse_lookup(t@),
    {
        self.inner.reverse_lookup(t)
    }

    /// Registers given type in the environment. If type is already registered,
    /// associated type id is returned. Any type can be registered; one that
    /// refers only to earlier identifiers keeps the environment
    /// [Self::refs_ordered].
    pub fn register(&mut self, t: Type) -> (id: TypeId)
        requires
            old(self).wf(),
            old(self).inner_env().base() > 0 ==> old(self).inner_env().next() < usize::MAX,
        ensures
            old(self).inner_env().registers(t@, id, final(self).inner_env()),
            old(self).refs_ordered() && refs_below(t@, old(self).inner_env().next())
                ==> final(self).refs_ordered(),
    {
        self.inner.register(t)
    }

    /// Lookup and reverse lookup agree: a type is found by reverse lookup
    /// under exactly the identifier that looks it up.
    pub proof fn law_lookup_reverse_lookup_agree(&self, id: TypeId, t: TypeModel)
        requires
            self.wf(),
        ensures
            self.inner_env().spec_lookup(id) == Some(t) <==> self.inner_env().spec_reverse_lookup(t)
                == Some(id),
    {
        self.inner_env().law_lookup_reverse_lookup_agree(id, t);
    }

    /// Replace TypeId(n) in a string with actual types ([expanded]).
    pub fn replace_type_ids(&self, s: &str) -> (r: String)
        requires
            self.wf(),
            expandable(self.inner_env(), s@, false),
        ensures
            r@ == expanded(self.inner_env(), s@, false),
    {
        expand_text(&self.inner, s, false)
    }

    /// Finds all types contained within type with the given [TypeId] and returns
    /// them. The environment must hold no type that refers to itself, since
    /// the search would then not end.
    pub fn find_associated(&self, id: TypeId) -> (r: Option<Vec<TypeId>>)
        requires
            self.wf(),
            self.refs_ordered(),
        ensures
            match r {
                Some(v) => self.inner_env().spec_find_associated(id) == Some(v@),
                None => self.inner_env().spec_find_associated(id) is None,
            },
    {
        self.inner.find_associated(id)
    }
}

/// TypeChecker is a Lua type checker. All logic related to type checking is
/// implemented in this type.
#[derive(Debug)]
pub struct TypeChecker {
    env: TypeEnvironment,
}

impl TypeChecker {
    /// Types of the checker's environment, indexed by [TypeId].
    pub closed spec fn tys(&self) -> Seq<TypeModel> {
        self.env.inner.frame()
    }

    /// The checker's environment is a well-formed root environment that
    /// starts with the builtin types.
    pub closed spec fn wf(&self) -> bool {
        root_ok(self.env.inner)
    }

    /// The checker's environment.
    pub closed spec fn env_of(&self) -> TypeEnvironment {
        self.env
    }

    /// Invariant facts of a well-formed checker.
    pub proof fn lemma_wf(&self)
        requires
            self.wf(),
        ensures
            wf_types(self.tys()),
            self.env_of().inner_env().is_root_with(self.tys()),
            self.env_of().wf(),
    {
    }

    /// Creates a checker with a new root environment.
    pub fn new() -> (r: TypeChecker)
        ensures
            r.wf(),
            r.tys() == root_types().take(7),
    {
        TypeChecker { env: TypeEnvironment::new() }
    }

    /// Returns current type environment.
    pub fn environment(&self) -> (r: &TypeEnvironment)
        ensures
            *r == self.env_of(),
    {
        &self.env
    }

    /// Registers a type in current type environment. The type's components
    /// must be types of the environment; types that refer to themselves are
    /// not admitted, since checking them would recurse without end.
    pub fn register_type(&mut self, t: Type) -> (id: TypeId)
        requires
            old(self).wf(),
            refs_below(t@, old(self).tys().len()),
        ensures
            final(self).wf(),
            (final(self).tys(), id) == reg(old(self).tys(), t@),
    {
        register_root(&mut self.env.inner, t)
    }

    /// Search [Type] with given [TypeId] in the current environment and returns it.
    /// A [TypeCheckError::InvalidTypeId] is returned if associated type is not found.
    pub fn lookup_type(&self, id: TypeId) -> (r: Result<&Type, TypeCheckError>)
        requires
            self.wf(),
        ensures
            match r {
                Ok(t) => valid(self.tys(), id) && t@ == self.tys()[id.0 as int],
                Err(e) => !valid(self.tys(), id) && e@ == CheckErr::InvalidTypeId(id),
            },
    {
        match lookup_root(&self.env.inner, id) {
            Some(t) => Ok(t),
            None => Err(TypeCheckError::InvalidTypeId(id)),
        }
    }

    /// Search [TypeId] of the given [Type] in the current environment and returns it.
    pub fn lookup_type_id(&self, t: &Type) -> (r: Option<TypeId>)
        requires
            self.wf(),
        ensures
            r == (match find_type(self.tys(), t@) {
                Some(i) => Some(TypeId(i as usize)),
                None => None,
            }),
    {
        proof {
            self.env.inner.lemma_root();
        }
        self.env.inner.reverse_lookup(t)
    }

    /// Transform given type to it's formatted string representation: its
    /// text with the types it refers to expanded ([expanded]).
    pub fn fmt(&self, t: &Type) -> (r: String)
        requires
            self.wf(),
            expandable(self.env_of().inner_env(), type_text(t@), false),
        ensures
            r@ == expanded(self.env_of().inner_env(), type_text(t@), false),
    {
        let text = type_string(t);
        self.env.replace_type_ids(text.as_str())
    }

    /// Checks whether the type of `source_id` is assignable to the type of
    /// `target_id` ([assignable]); types registered by normalization stay in
    /// the environment.
    pub fn can_assign(&mut self, source_id: TypeId, target_id: TypeId) -> (r: Result<
        (),
        TypeCheckError,
    >)
        requires
            old(self).wf(),
        ensures
            final(self).wf(),
            extends(final(self).tys(), old(self).tys()),
            (final(self).tys(), res_model(r)) == assignable(
                old(self).tys(),
                source_id,
                target_id,
                true,
            ),
            source_id == TypeId(1) && valid(old(self).tys(), target_id) && !(old(
                self,
            ).tys()[target_id.0 as int] is Never) && !(old(self).tys()[target_id.0 as int] is Union)
                ==> r is Ok,
    {
        let ghost fuel = measure(self.env.inner.frame(), source_id, target_id) + 1;
        can_assign_core(&mut self.env.inner, source_id, target_id, true, Ghost(fuel))
    }

    /// Normalizes the given type, registers its normal form and returns its
    /// identifier ([norm]); `None` for types without a normal form. The
    /// type's components must be types of the environment.
    pub fn normalize(&mut self, t: &Type) -> (r: Option<TypeId>)
        requires
            old(self).wf(),
            refs_below(t@, old(self).tys().len()),
        ensures
            final(self).wf(),
            extends(final(self).tys(), old(self).tys()),
            (final(self).tys(), r) == norm(old(self).tys(), t@, old(self).tys().len()),
            r matches Some(id) ==> valid(final(self).tys(), id),
    {
        let ghost n = self.env.inner.frame().len();
        normalize_type(&mut self.env.inner, t, Ghost(n))
    }

    /// Normalizes the given type and returns its normal form, or the type
    /// itself when it has none.
    pub fn normalize_then_lookup<'a>(&'a mut self, t: &'a Type) -> (r: &'a Type)
        requires
            old(self).wf(),
            refs_below(t@, old(self).tys().len()),
        ensures
            final(self).wf(),
            (final(self).tys(), r@) == crate::checker::normalized_type(old(self).tys(), t@),
    {
        match self.normalize(t) {
            Some(id) => lookup_root(&self.env.inner, id).unwrap(),
            None => t,
        }
    }

    /// Type of field `field` of type `t` ([field_type], with the union of
    /// the members' field types normalized as given). The type's components
    /// must be types of the environment.
    pub fn get_field_type(&mut self, t: &Type, field: TypeId) -> (r: Option<TypeId>)
        requires
            old(self).wf(),
            refs_below(t@, old(self).tys().len()),
        ensures
            final(self).wf(),
            extends(final(self).tys(), old(self).tys()),
            (final(self).tys(), r) == field_type(
                old(self).tys(),
                t@,
                field,
                old(self).tys().len(),
                true,
            ),
            r matches Some(id) ==> valid(final(self).tys(), id),
    {
        let ghost n = self.env.inner.frame().len();
        field_type_of(&mut self.env.inner, t, field, Ghost(n), true)
    }
}

} // verus!
