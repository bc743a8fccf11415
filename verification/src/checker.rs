//! Lua type checker over a root [TypeEnvironment] that holds the builtin
//! types, `require` and `_G`.
use vstd::prelude::*;

use crate::assign::{assignable, can_assign_core, measure, res_model};
use crate::env::{fields_below, find_type, ids_below, refs_below, root_types, TypeEnvironment};
use crate::errors::{CheckErr, TypeCheckError};
use crate::height::extends;
use crate::normalize::{
    field_type, field_type_of, flatten, lookup_root, norm, normalize_type, reg, register_root,
    root_ok, union_of, valid, wf_types,
};
use crate::expand::{expandable, expanded};
use crate::text::{type_string, type_text};
use crate::types::{bool_text, fields_from, PrimitiveKind, Type, TypeId, TypeModel};

verus! {

/// Type registered for `t` by normalization ([norm]): the type of its
/// normal form, or `t` itself when it has none.
pub open spec fn normalized_type(tys: Seq<TypeModel>, t: TypeModel) -> (Seq<TypeModel>, TypeModel) {
    let (a, o) = norm(tys, t, tys.len());
    match o {
        Some(n) => (a, a[n.0 as int]),
        None => (a, t),
    }
}

/// In a root environment that meets [root_ok], registering as
/// [TypeEnvironment::registers] says is [reg], and keeps [root_ok].
proof fn lemma_registers_reg(
    before: TypeEnvironment,
    t: TypeModel,
    id: TypeId,
    after: TypeEnvironment,
)
    requires
        root_ok(before),
        before.registers(t, id, after),
        refs_below(t, before.frame().len()),
    ensures
        root_ok(after),
        (after.frame(), id) == reg(before.frame(), t),
        extends(after.frame(), before.frame()),
{
    before.lemma_root();
    after.lemma_root();
    assert(forall|i: int| 0 <= i < before.frame().len() ==> #[trigger] after.frame()[i] == before.frame()[i]);
}

/// TypeChecker is a Lua type checker. All logic related to type checking is
/// implemented in this type.
#[derive(Debug)]
pub struct TypeChecker {
    env: TypeEnvironment,
}

impl TypeChecker {
    /// Types of the checker's environment, indexed by [TypeId].
    pub closed spec fn tys(&self) -> Seq<TypeModel> {
        self.env.frame()
    }

    /// The checker's environment is a well-formed root environment that
    /// starts with the builtin types.
    pub closed spec fn wf(&self) -> bool {
        root_ok(self.env)
    }

    /// The checker's environment.
    pub closed spec fn env_of(&self) -> TypeEnvironment {
        self.env
    }

    /// Invariant facts of a well-formed checker.
    pub proof fn lemma_wf(&self)
        requires
            self.wf(),
        ensures
            wf_types(self.tys()),
            self.env_of().is_root_with(self.tys()),
            self.env_of().wf(),
    {
    }

    /// Creates a checker with a new root environment.
    pub fn new() -> (r: TypeChecker)
        ensures
            r.wf(),
            r.tys() == root_types(),
    {
        let env = TypeEnvironment::new();
        TypeChecker { env }
    }

    /// Returns current type environment.
    pub fn environment(&self) -> (r: &TypeEnvironment)
        ensures
            *r == self.env_of(),
    {
        &self.env
    }

    /// Registers a type in current type environment. The type's components
    /// must be types of the environment; types that refer to themselves are
    /// not admitted, since checking them would recurse without end.
    pub fn register_type(&mut self, t: Type) -> (id: TypeId)
        requires
            old(self).wf(),
            refs_below(t@, old(self).tys().len()),
        ensures
            final(self).wf(),
            (final(self).tys(), id) == reg(old(self).tys(), t@),
    {
        register_root(&mut self.env, t)
    }

    /// Search [Type] with given [TypeId] in the current environment and returns it.
    /// A [TypeCheckError::InvalidTypeId] is returned if associated type is not found.
    pub fn lookup_type(&self, id: TypeId) -> (r: Result<&Type, TypeCheckError>)
        requires
            self.wf(),
        ensures
            match r {
                Ok(t) => valid(self.tys(), id) && t@ == self.tys()[id.0 as int],
                Err(e) => !valid(self.tys(), id) && e@ == CheckErr::InvalidTypeId(id),
            },
    {
        match lookup_root(&self.env, id) {
            Some(t) => Ok(t),
            None => Err(TypeCheckError::InvalidTypeId(id)),
        }
    }

    /// Search [TypeId] of the given [Type] in the current environment and returns it.
    pub fn lookup_type_id(&self, t: &Type) -> (r: Option<TypeId>)
        requires
            self.wf(),
        ensures
            r == (match find_type(self.tys(), t@) {
                Some(i) => Some(TypeId(i as usize)),
                None => None,
            }),
    {
        proof {
            self.env.lemma_root();
        }
        self.env.reverse_lookup(t)
    }

    /// Creates a new boolean literal type.
    pub fn boolean(&mut self, value: bool) -> (id: TypeId)
        requires
            old(self).wf(),
        ensures
            final(self).wf(),
            (final(self).tys(), id) == reg(
                old(self).tys(),
                TypeModel::Literal { value: bool_text(value), kind: PrimitiveKind::Boolean },
            ),
    {
        let ghost before = self.env;
        let id = self.env.boolean(value);
        proof {
            lemma_registers_reg(
                before,
                TypeModel::Literal { value: bool_text(value), kind: PrimitiveKind::Boolean },
                id,
                self.env,
            );
        }
        id
    }

    /// Creates a new boolean literal type and returns it.
    pub fn boolean_then_lookup(&mut self, value: bool) -> (r: &Type)
        requires
            old(self).wf(),
        ensures
            final(self).wf(),
            r@ == (TypeModel::Literal { value: bool_text(value), kind: PrimitiveKind::Boolean }),
            final(self).tys() == reg(
                old(self).tys(),
                TypeModel::Literal { value: bool_text(value), kind: PrimitiveKind::Boolean },
            ).0,
    {
        let id = self.boolean(value);
        lookup_root(&self.env, id).unwrap()
    }

    /// Creates a new number literal type, the number written `text`.
    pub fn number_literal(&mut self, text: String) -> (id: TypeId)
        requires
            old(self).wf(),
        ensures
            final(self).wf(),
            (final(self).tys(), id) == reg(
                old(self).tys(),
                TypeModel::Literal { value: text@, kind: PrimitiveKind::Number },
            ),
    {
        let ghost before = self.env;
        let ghost v = text@;
        let id = self.env.number_literal(text);
        proof {
            lemma_registers_reg(
                before,
                TypeModel::Literal { value: v, kind: PrimitiveKind::Number },
                id,
                self.env,
            );
        }
        id
    }

    /// Creates a new number literal type and returns it.
    pub fn number_literal_then_lookup(&mut self, text: String) -> (r: &Type)
        requires
            old(self).wf(),
        ensures
            final(self).wf(),
            r@ == (TypeModel::Literal { value: text@, kind: PrimitiveKind::Number }),
            final(self).tys() == reg(
                old(self).tys(),
                TypeModel::Literal { value: text@, kind: PrimitiveKind::Number },
            ).0,
    {
        let id = self.number_literal(text);
        lookup_root(&self.env, id).unwrap()
    }

    /// Creates a new string literal type. The literal must be written
    /// between double quotes.
    pub fn string(&mut self, lit: String) -> (id: TypeId)
        requires
            old(self).wf(),
            lit@.len() >= 2,
            lit@[0] == '"',
            lit@.last() == '"',
        ensures
            final(self).wf(),
            (final(self).tys(), id) == reg(
                old(self).tys(),
                TypeModel::Literal { value: lit@, kind: PrimitiveKind::String },
            ),
    {
        let ghost before = self.env;
        let ghost v = lit@;
        let id = self.env.string(lit);
        proof {
            lemma_registers_reg(
                before,
                TypeModel::Literal { value: v, kind: PrimitiveKind::String },
                id,
                self.env,
            );
        }
        id
    }

    /// Creates a new string literal type and returns it.
    pub fn string_then_lookup(&mut self, lit: String) -> (r: &Type)
        requires
            old(self).wf(),
            lit@.len() >= 2,
            lit@[0] == '"',
            lit@.last() == '"',
        ensures
            final(self).wf(),
            r@ == (TypeModel::Literal { value: lit@, kind: PrimitiveKind::String }),
            final(self).tys() == reg(
                old(self).tys(),
                TypeModel::Literal { value: lit@, kind: PrimitiveKind::String },
            ).0,
    {
        let id = self.string(lit);
        lookup_root(&self.env, id).unwrap()
    }

    /// Creates a new function type. Parameters and results must be types of
    /// the environment.
    pub fn function(&mut self, params: Vec<TypeId>, results: Vec<TypeId>) -> (id: TypeId)
        requires
            old(self).wf(),
            ids_below(params@, old(self).tys().len()),
            ids_below(results@, old(self).tys().len()),
        ensures
            final(self).wf(),
            (final(self).tys(), id) == reg(
                old(self).tys(),
                TypeModel::Function { params: params@, results: results@ },
            ),
    {
        let ghost before = self.env;
        let ghost t = TypeModel::Function { params: params@, results: results@ };
        proof {
            self.env.lemma_root();
        }
        let id = self.env.function(params, results);
        proof {
            lemma_registers_reg(before, t, id, self.env);
        }
        id
    }

    /// Creates a new function type and returns it.
    pub fn function_then_lookup(&mut self, params: Vec<TypeId>, results: Vec<TypeId>) -> (r: &Type)
        requires
            old(self).wf(),
            ids_below(params@, old(self).tys().len()),
            ids_below(results@, old(self).tys().len()),
        ensures
            final(self).wf(),
            r@ == (TypeModel::Function { params: params@, results: results@ }),
            final(self).tys() == reg(
                old(self).tys(),
                TypeModel::Function { params: params@, results: results@ },
            ).0,
    {
        let id = self.function(params, results);
        lookup_root(&self.env, id).unwrap()
    }

    /// Creates a new union type ([union_of]): member unions are flattened and
    /// the union of a single type is that type. Members must be types of the
    /// environment.
    pub fn union(&mut self, types: Vec<TypeId>) -> (id: TypeId)
        requires
            old(self).wf(),
            ids_below(types@, old(self).tys().len()),
        ensures
            final(self).wf(),
            (final(self).tys(), id) == union_of(old(self).tys(), types@),
            valid(final(self).tys(), id),
    {
        crate::normalize::union_root(&mut self.env, types)
    }

    /// Creates a new union type and returns it.
    pub fn union_then_lookup(&mut self, types: Vec<TypeId>) -> (r: &Type)
        requires
            old(self).wf(),
            ids_below(types@, old(self).tys().len()),
        ensures
            final(self).wf(),
            final(self).tys() == union_of(old(self).tys(), types@).0,
            r@ == final(self).tys()[union_of(old(self).tys(), types@).1.0 as int],
    {
        let id = self.union(types);
        lookup_root(&self.env, id).unwrap()
    }

    /// Creates a new interface type. A key given several times keeps its last
    /// value. Keys must be literal types of the environment and values
    /// types of the environment.
    pub fn iface(&mut self, pairs: Vec<(TypeId, TypeId)>) -> (id: TypeId)
        requires
            old(self).wf(),
            forall|i: int|
                0 <= i < fields_from(pairs@).len() ==> {
                    let (k, v) = #[trigger] fields_from(pairs@)[i];
                    &&& old(self).tys()[k.0 as int] is Literal
                    &&& k.0 < old(self).tys().len()
                    &&& v.0 < old(self).tys().len()
                },
        ensures
            final(self).wf(),
            (final(self).tys(), id) == reg(
                old(self).tys(),
                TypeModel::Iface { fields: fields_from(pairs@) },
            ),
    {
        let ghost before = self.env;
        let ghost t = TypeModel::Iface { fields: fields_from(pairs@) };
        proof {
            self.env.lemma_root();
            assert forall|i: int| 0 <= i < fields_from(pairs@).len() implies {
                let (k, v) = #[trigger] fields_from(pairs@)[i];
                &&& self.env.has_literal(k)
                &&& self.env.spec_lookup(v) is Some
            } by {}
        }
        let id = self.env.iface(pairs);
        proof {
            lemma_registers_reg(before, t, id, self.env);
        }
        id
    }

    /// Creates a new interface type and returns it.
    pub fn iface_then_lookup(&mut self, pairs: Vec<(TypeId, TypeId)>) -> (r: &Type)
        requires
            old(self).wf(),
            forall|i: int|
                0 <= i < fields_from(pairs@).len() ==> {
                    let (k, v) = #[trigger] fields_from(pairs@)[i];
                    &&& old(self).tys()[k.0 as int] is Literal
                    &&& k.0 < old(self).tys().len()
                    &&& v.0 < old(self).tys().len()
                },
        ensures
            final(self).wf(),
            r@ == (TypeModel::Iface { fields: fields_from(pairs@) }),
            final(self).tys() == reg(
                old(self).tys(),
                TypeModel::Iface { fields: fields_from(pairs@) },
            ).0,
    {
        let id = self.iface(pairs);
        lookup_root(&self.env, id).unwrap()
    }

    /// Transform given type to it's formatted string representation: its
    /// text with the types it refers to expanded ([expanded]).
    pub fn fmt(&self, t: &Type, alternate: bool) -> (r: String)
        requires
            self.wf(),
            expandable(self.env_of(), type_text(t@), true),
        ensures
            r@ == expanded(self.env_of(), type_text(t@), true),
    {
        let text = type_string(t);
        self.env.fmt(text.as_str(), alternate)
    }

    /// Checks whether the type of `source_id` is assignable to the type of
    /// `target_id` ([assignable]); types registered by normalization stay in
    /// the environment.
    pub fn can_assign(&mut self, source_id: TypeId, target_id: TypeId) -> (r: Result<
        (),
        TypeCheckError,
    >)
        requires
            old(self).wf(),
        ensures
            final(self).wf(),
            extends(final(self).tys(), old(self).tys()),
            (final(self).tys(), res_model(r)) == assignable(
                old(self).tys(),
                source_id,
                target_id,
                false,
            ),
            source_id == TypeId(1) && valid(old(self).tys(), target_id) && !(old(
                self,
            ).tys()[target_id.0 as int] is Never) && !(old(self).tys()[target_id.0 as int] is Union)
                ==> r is Ok,
    {
        let ghost fuel = measure(self.env.frame(), source_id, target_id) + 1;
        can_assign_core(&mut self.env, source_id, target_id, false, Ghost(fuel))
    }

    /// Normalizes the given type, registers its normal form and returns its
    /// identifier ([norm]); `None` for types without a normal form. The
    /// type's components must be types of the environment.
    pub fn normalize(&mut self, t: &Type) -> (r: Option<TypeId>)
        requires
            old(self).wf(),
            refs_below(t@, old(self).tys().len()),
        ensures
            final(self).wf(),
            extends(final(self).tys(), old(self).tys()),
            (final(self).tys(), r) == norm(old(self).tys(), t@, old(self).tys().len()),
            r matches Some(id) ==> valid(final(self).tys(), id),
    {
        let ghost n = self.env.frame().len();
        normalize_type(&mut self.env, t, Ghost(n))
    }

    /// Normalizes the given type and returns its normal form, or the type
    /// itself when it has none ([normalized_type]).
    pub fn normalize_then_lookup<'a>(&'a mut self, t: &'a Type) -> (r: &'a Type)
        requires
            old(self).wf(),
            refs_below(t@, old(self).tys().len()),
        ensures
            final(self).wf(),
            (final(self).tys(), r@) == normalized_type(old(self).tys(), t@),
    {
        match self.normalize(t) {
            Some(id) => lookup_root(&self.env, id).unwrap(),
            None => t,
        }
    }

    /// Type of field `field` of type `t` ([field_type]). The type's
    /// components must be types of the environment.
    pub fn get_field_type(&mut self, t: &Type, field: TypeId) -> (r: Option<TypeId>)
        requires
            old(self).wf(),
            refs_below(t@, old(self).tys().len()),
        ensures
            final(self).wf(),
            extends(final(self).tys(), old(self).tys()),
            (final(self).tys(), r) == field_type(
                old(self).tys(),
                t@,
                field,
                old(self).tys().len(),
                false,
            ),
            r matches Some(id) ==> valid(final(self).tys(), id),
    {
        let ghost n = self.env.frame().len();
        field_type_of(&mut self.env, t, field, Ghost(n), false)
    }
}

} // verus!
