//! Normal forms of types and field lookup in a root [TypeEnvironment]:
//! functions and interfaces get normalized components, unions get flat,
//! duplicate-free members.
use vstd::prelude::*;

use crate::errors::{errs_model, CheckErr, IncompatibleTypeError, TypeCheckError};
use crate::height::{
    extends, fields_height, height, ids_height, lemma_fields_height_ge, lemma_fields_height_le,
    lemma_fields_get_index, lemma_ids_height_ext, lemma_ids_height_ge, lemma_ids_height_le, max_nat,
    model_height,
};
use crate::env::{
    fields_below, find_type, ids_below, refs_below, root_types, unique_types, TypeEnvironment,
};
use crate::types::{
    copy_ids, fields_from, fields_get, fields_insert, FunctionType, IfaceType, PrimitiveKind, Type, TypeId,
    TypeModel, UnionType,
};

verus! {

/// Invariant of the types of a checker's root environment: identifiers fit
/// in `usize`, no type occurs twice, every type only refers to smaller
/// identifiers and the first types are the builtin ones.
pub open spec fn wf_types(tys: Seq<TypeModel>) -> bool {
    &&& tys.len() <= usize::MAX
    &&& unique_types(tys)
    &&& forall|i: int| 0 <= i < tys.len() ==> refs_below(#[trigger] tys[i], i as nat)
    &&& 7 <= tys.len()
    &&& forall|i: int| 0 <= i < 7 ==> #[trigger] tys[i] == root_types()[i]
}

/// Registers `t` in the root types `tys`: the identifier of `t` if it is
/// there, otherwise `t` is appended.
pub open spec fn reg(tys: Seq<TypeModel>, t: TypeModel) -> (Seq<TypeModel>, TypeId) {
    match find_type(tys, t) {
        Some(i) => (tys, TypeId(i as usize)),
        None => (tys.push(t), TypeId(tys.len() as usize)),
    }
}

/// `o` or else `default`.
pub open spec fn id_or(o: Option<TypeId>, default: TypeId) -> TypeId {
    match o {
        Some(id) => id,
        None => default,
    }
}

/// `id` names a type of `tys`.
pub open spec fn valid(tys: Seq<TypeModel>, id: TypeId) -> bool {
    id.0 < tys.len()
}

/// The type of `x` is a literal type of kind `kind`.
pub open spec fn is_literal_of(tys: Seq<TypeModel>, x: TypeId, kind: PrimitiveKind) -> bool {
    x.0 < tys.len() && (match tys[x.0 as int] {
        TypeModel::Literal { kind: k, .. } => k == kind,
        _ => false,
    })
}

/// `ids` without the identifiers of literal types of kind `kind`.
pub open spec fn drop_literals(tys: Seq<TypeModel>, ids: Seq<TypeId>, kind: PrimitiveKind) -> Seq<
    TypeId,
>
    decreases ids.len(),
{
    if ids.len() == 0 {
        seq![]
    } else {
        let rest = drop_literals(tys, ids.drop_last(), kind);
        let x = ids.last();
        if is_literal_of(tys, x, kind) {
            rest
        } else {
            rest.push(x)
        }
    }
}

/// Normalized members of a union with members `ids` (below `bound`), added
/// to the members `result` found so far: `any` absorbs everything, an
/// `unknown` member resets the members to `unknown`, duplicates and `never`
/// are dropped, nested unions are flattened, a literal is dropped when its
/// primitive type is present and a primitive type drops the literals of
/// its kind.
pub open spec fn union_members(
    tys: Seq<TypeModel>,
    ids: Seq<TypeId>,
    result: Seq<TypeId>,
    bound: nat,
) -> Seq<TypeId>
    decreases bound, 1nat, 0nat,
{
    if ids.contains(TypeId(1)) {
        seq![TypeId(1)]
    } else {
        union_members_from(tys, ids, 0, result, bound)
    }
}

/// [union_members] of the members of `ids` from position `i` on.
pub open spec fn union_members_from(
    tys: Seq<TypeModel>,
    ids: Seq<TypeId>,
    i: nat,
    result: Seq<TypeId>,
    bound: nat,
) -> Seq<TypeId>
    decreases bound, 0nat, ids.len() - i,
{
    if i >= ids.len() {
        result
    } else {
        let x = ids[i as int];
        if result.contains(x) {
            union_members_from(tys, ids, i + 1, result, bound)
        } else if !(x.0 < bound && x.0 < tys.len()) {
            result
        } else {
            match tys[x.0 as int] {
                TypeModel::Never => union_members_from(tys, ids, i + 1, result, bound),
                TypeModel::Literal { kind, .. } => if result.contains(kind.spec_type_id()) {
                    union_members_from(tys, ids, i + 1, result, bound)
                } else {
                    union_members_from(tys, ids, i + 1, result.push(x), bound)
                },
                TypeModel::Primitive { kind, .. } => union_members_from(
                    tys,
                    ids,
                    i + 1,
                    drop_literals(tys, result, kind).push(x),
                    bound,
                ),
                TypeModel::Union { types } => union_members_from(
                    tys,
                    ids,
                    i + 1,
                    union_members(tys, types, result, x.0 as nat),
                    bound,
                ),
                TypeModel::Any => result,
                TypeModel::Unknown => seq![TypeId(2)],
                _ => union_members_from(tys, ids, i + 1, result.push(x), bound),
            }
        }
    }
}

/// Members of `types` where every union type of `tys` is replaced by its
/// members.
pub open spec fn flatten(tys: Seq<TypeModel>, types: Seq<TypeId>) -> Seq<TypeId>
    decreases types.len(),
{
    if types.len() == 0 {
        seq![]
    } else {
        let rest = flatten(tys, types.drop_last());
        let x = types.last();
        if x.0 < tys.len() {
            match tys[x.0 as int] {
                TypeModel::Union { types: members } => rest + members,
                _ => rest.push(x),
            }
        } else {
            rest.push(x)
        }
    }
}

/// Union of `types` created in the root types `tys`
/// ([TypeEnvironment::union]).
pub open spec fn union_of(tys: Seq<TypeModel>, types: Seq<TypeId>) -> (Seq<TypeModel>, TypeId) {
    let flat = flatten(tys, types);
    if flat.len() == 1 {
        (tys, flat[0])
    } else {
        reg(tys, TypeModel::Union { types: flat })
    }
}

/// Normal form of type `t` (whose components are below `bound`), registered
/// in `tys`: functions and interfaces get normalized components, unions
/// normalized members; other types have no normal form of their own.
pub open spec fn norm(tys: Seq<TypeModel>, t: TypeModel, bound: nat) -> (
    Seq<TypeModel>,
    Option<TypeId>,
)
    decreases bound, 2nat, 0nat,
{
    match t {
        TypeModel::Function { params, results } => {
            let (a, id) = norm_function(tys, params, results, bound);
            (a, Some(id))
        },
        TypeModel::Require { params, results } => {
            let (a, id) = norm_function(tys, params, results, bound);
            (a, Some(id))
        },
        TypeModel::Iface { fields } => {
            let (a, id) = norm_iface(tys, fields, bound);
            (a, Some(id))
        },
        TypeModel::Global { fields } => {
            let (a, id) = norm_iface(tys, fields, bound);
            (a, Some(id))
        },
        TypeModel::Union { types } => {
            let (a, id) = norm_union(tys, types, bound);
            (a, Some(id))
        },
        _ => (tys, None),
    }
}

/// Normal form of identifier `x`: the normal form of its type, or `x`.
pub open spec fn norm_id(tys: Seq<TypeModel>, x: TypeId, bound: nat) -> (Seq<TypeModel>, TypeId)
    decreases bound, 0nat, 0nat,
{
    if x.0 < bound && x.0 < tys.len() {
        let (a, o) = norm(tys, tys[x.0 as int], x.0 as nat);
        (a, id_or(o, x))
    } else {
        (tys, x)
    }
}

/// Normal forms of the identifiers of `ids`, in order.
pub open spec fn norm_ids(tys: Seq<TypeModel>, ids: Seq<TypeId>, bound: nat) -> (
    Seq<TypeModel>,
    Seq<TypeId>,
)
    decreases bound, 0nat, ids.len(),
{
    if ids.len() == 0 {
        (tys, seq![])
    } else {
        let (a, acc) = norm_ids(tys, ids.drop_last(), bound);
        let (b, x) = norm_id(a, ids.last(), bound);
        (b, acc.push(x))
    }
}

/// Normal forms of the keys and values of `fields`, in order.
pub open spec fn norm_fields(tys: Seq<TypeModel>, fields: Seq<(TypeId, TypeId)>, bound: nat) -> (
    Seq<TypeModel>,
    Seq<(TypeId, TypeId)>,
)
    decreases bound, 0nat, fields.len(),
{
    if fields.len() == 0 {
        (tys, seq![])
    } else {
        let (a, acc) = norm_fields(tys, fields.drop_last(), bound);
        let (b, k) = norm_id(a, fields.last().0, bound);
        let (c, v) = norm_id(b, fields.last().1, bound);
        (c, acc.push((k, v)))
    }
}

/// Registered normal form of a function type.
pub open spec fn norm_function(
    tys: Seq<TypeModel>,
    params: Seq<TypeId>,
    results: Seq<TypeId>,
    bound: nat,
) -> (Seq<TypeModel>, TypeId)
    decreases bound, 1nat, 0nat,
{
    let (a, ps) = norm_ids(tys, params, bound);
    let (b, rs) = norm_ids(a, results, bound);
    reg(b, TypeModel::Function { params: ps, results: rs })
}

/// Registered normal form of an interface type.
pub open spec fn norm_iface(tys: Seq<TypeModel>, fields: Seq<(TypeId, TypeId)>, bound: nat) -> (
    Seq<TypeModel>,
    TypeId,
)
    decreases bound, 1nat, 0nat,
{
    let (a, pairs) = norm_fields(tys, fields, bound);
    reg(a, TypeModel::Iface { fields: fields_from(pairs) })
}

/// Registered normal form of a union type: `never` without members, the
/// member itself for a single member, otherwise the union of the members.
pub open spec fn norm_union(tys: Seq<TypeModel>, types: Seq<TypeId>, bound: nat) -> (
    Seq<TypeModel>,
    TypeId,
)
    decreases bound, 1nat, 0nat,
{
    let members = union_members(tys, types, seq![], bound);
    if members.len() == 0 {
        (tys, TypeId(0))
    } else if members.len() == 1 {
        (tys, members[0])
    } else {
        reg(tys, TypeModel::Union { types: members })
    }
}

/// Type of field `field` of type `t` (whose components are below `bound`):
/// `never` for `never`, `any` for `any`, the field's type for interfaces,
/// and for unions, when some member has the field, the normal form of the
/// union of the members' field types. With `legacy`, that union is
/// normalized as given; otherwise it is first created in the environment
/// ([union_of]) and has no normal form when it is a single leaf type.
pub open spec fn field_type(
    tys: Seq<TypeModel>,
    t: TypeModel,
    field: TypeId,
    bound: nat,
    legacy: bool,
) -> (Seq<TypeModel>, Option<TypeId>)
    decreases bound, 1nat, 0nat,
{
    match t {
        TypeModel::Never => (tys, Some(TypeId(0))),
        TypeModel::Union { types } => {
            let (a, found) = member_field_types(tys, types, field, bound, legacy);
            if found.len() == 0 {
                (a, None)
            } else if legacy {
                norm(a, TypeModel::Union { types: found }, a.len())
            } else {
                let (b, id) = union_of(a, found);
                if id.0 < b.len() {
                    norm(b, b[id.0 as int], id.0 as nat)
                } else {
                    (b, None)
                }
            }
        },
        TypeModel::Iface { fields } => (tys, fields_get(fields, field)),
        TypeModel::Global { fields } => (tys, fields_get(fields, field)),
        TypeModel::Any => (tys, Some(TypeId(1))),
        _ => (tys, None),
    }
}

/// Field types of the members of `ids` that have field `field`.
pub open spec fn member_field_types(
    tys: Seq<TypeModel>,
    ids: Seq<TypeId>,
    field: TypeId,
    bound: nat,
    legacy: bool,
) -> (Seq<TypeModel>, Seq<TypeId>)
    decreases bound, 0nat, ids.len(),
{
    if ids.len() == 0 {
        (tys, seq![])
    } else {
        let (a, acc) = member_field_types(tys, ids.drop_last(), field, bound, legacy);
        let x = ids.last();
        if x.0 < bound && x.0 < a.len() {
            let (b, o) = field_type(a, a[x.0 as int], field, x.0 as nat, legacy);
            match o {
                Some(f) => (b, acc.push(f)),
                None => (b, acc),
            }
        } else {
            (a, acc)
        }
    }
}

/// Root environment whose types satisfy [wf_types].
pub open spec fn root_ok(env: TypeEnvironment) -> bool {
    &&& env.wf()
    &&& env.parent_of() is None
    &&& env.base() == 0
    &&& wf_types(env.frame())
}

/// Every type appended to `a` in `b` is at most `k` high.
pub open spec fn new_within(a: Seq<TypeModel>, b: Seq<TypeModel>, k: nat) -> bool {
    forall|x: TypeId| a.len() <= x.0 < b.len() ==> #[trigger] height(b, x) <= k
}

/// Whether `x` occurs in `v`.
pub(crate) fn contains_id(v: &Vec<TypeId>, x: TypeId) -> (r: bool)
    ensures
        r == v@.contains(x),
{
    let mut i: usize = 0;
    while i < v.len()
        invariant
            i <= v.len(),
            forall|j: int| 0 <= j < i ==> v@[j] != x,
        decreases v.len() - i,
    {
        if v[i] == x {
            return true;
        }
        i += 1;
    }
    false
}

/// Looks up a type of a root environment.
pub(crate) fn lookup_root(env: &TypeEnvironment, id: TypeId) -> (r: Option<&Type>)
    requires
        root_ok(*env),
    ensures
        match r {
            Some(t) => valid(env.frame(), id) && t@ == env.frame()[id.0 as int] && refs_below(
                t@,
                id.0 as nat,
            ),
            None => !valid(env.frame(), id),
        },
{
    proof {
        env.lemma_root();
    }
    env.lookup(id)
}

/// Registers a type in a root environment.
pub(crate) fn register_root(env: &mut TypeEnvironment, t: Type) -> (id: TypeId)
    requires
        root_ok(*old(env)),
        refs_below(t@, old(env).frame().len()),
    ensures
        root_ok(*final(env)),
        (final(env).frame(), id) == reg(old(env).frame(), t@),
        extends(final(env).frame(), old(env).frame()),
        valid(final(env).frame(), id),
        final(env).frame()[id.0 as int] == t@,
        refs_below(t@, id.0 as nat),
        final(env).frame().len() <= old(env).frame().len() + 1,
        final(env).frame().len() == old(env).frame().len() + 1 ==> id.0 == old(env).frame().len(),
{
    proof {
        env.lemma_root();
    }
    let ghost before = env.frame();
    let id = env.register(t);
    proof {
        env.lemma_root();
        assert(forall|i: int| 0 <= i < before.len() ==> #[trigger] env.frame()[i] == before[i]);
        match find_type(before, t@) {
            Some(i) => {},
            None => {
                assert(env.frame()[before.len() as int] == t@);
            },
        }
    }
    id
}

/// Removes from `vec` the literal types of kind `kind`.
fn filter_types(env: &TypeEnvironment, vec: &mut Vec<TypeId>, kind: PrimitiveKind)
    requires
        root_ok(*env),
        forall|i: int| 0 <= i < old(vec)@.len() ==> valid(env.frame(), #[trigger] old(vec)@[i]),
    ensures
        final(vec)@ == drop_literals(env.frame(), old(vec)@, kind),
{
    let ghost orig = vec@;
    let ghost tys = env.frame();
    let ghost mut j: int = 0;
    let mut i: usize = 0;
    while i < vec.len()
        invariant
            0 <= j <= orig.len(),
            vec@ == drop_literals(tys, orig.take(j), kind) + orig.skip(j),
            i == drop_literals(tys, orig.take(j), kind).len(),
            forall|i: int| 0 <= i < orig.len() ==> valid(tys, #[trigger] orig[i]),
            root_ok(*env),
            tys == env.frame(),
        decreases orig.len() - j,
    {
        let id = vec[i];
        let ghost d = drop_literals(tys, orig.take(j), kind);
        assert(id == orig[j]);
        assert(orig.take(j + 1).drop_last() =~= orig.take(j));
        let t = lookup_root(env, id).unwrap();
        let drop = match t {
            Type::Literal { kind: k, .. } => *k == kind,
            _ => false,
        };
        if drop {
            vec.remove(i);
            assert(vec@ =~= d + orig.skip(j + 1));
        } else {
            i += 1;
            assert(vec@ =~= d.push(orig[j]) + orig.skip(j + 1));
        }
        proof {
            j = j + 1;
        }
    }
    assert(orig.take(j) =~= orig);
    assert(vec@ =~= drop_literals(tys, orig, kind));
}

/// Normalized members of a union with members `ids` added to `result`
/// ([union_members]). Members that were not in `result` are no higher than
/// the highest of `ids`.
#[verifier::loop_isolation(false)]
fn normalize_union_types(
    env: &TypeEnvironment,
    ids: &Vec<TypeId>,
    result: Vec<TypeId>,
    Ghost(bound): Ghost<nat>,
) -> (r: Vec<TypeId>)
    requires
        root_ok(*env),
        bound <= env.frame().len(),
        ids_below(ids@, bound),
        forall|i: int| 0 <= i < result@.len() ==> valid(env.frame(), #[trigger] result@[i]),
    ensures
        r@ == union_members(env.frame(), ids@, result@, bound),
        forall|i: int| 0 <= i < r@.len() ==> valid(env.frame(), #[trigger] r@[i]),
        forall|i: int|
            0 <= i < r@.len() ==> result@.contains(#[trigger] r@[i]) || height(env.frame(), r@[i])
                <= ids_height(env.frame(), ids@, bound),
    decreases bound, 1nat,
{
    let ghost tys = env.frame();
    if contains_id(ids, TypeId::ANY()) {
        let mut r: Vec<TypeId> = Vec::new();
        r.push(TypeId::ANY());
        proof {
            assert(r@ =~= seq![TypeId(1)]);
            assert(tys[1] == TypeModel::Any);
        }
        return r;
    }
    let ghost result0 = result@;
    let mut result = result;
    let mut i: usize = 0;
    while i < ids.len()
        invariant
            root_ok(*env),
            tys == env.frame(),
            bound <= tys.len(),
            ids_below(ids@, bound),
            !ids@.contains(TypeId(1)),
            i <= ids.len(),
            union_members(tys, ids@, result0, bound) == union_members_from(
                tys,
                ids@,
                i as nat,
                result@,
                bound,
            ),
            forall|k: int| 0 <= k < result@.len() ==> valid(tys, #[trigger] result@[k]),
            forall|k: int|
                0 <= k < result@.len() ==> result0.contains(#[trigger] result@[k]) || height(
                    tys,
                    result@[k],
                ) <= ids_height(tys, ids@, bound),
        decreases ids.len() - i,
    {
        let type_id = ids[i];
        assert(type_id.0 < bound);
        if contains_id(&result, type_id) {
            i += 1;
            continue;
        }
        proof {
            lemma_ids_height_ge(tys, ids@, bound, i as int);
        }
        let t = lookup_root(env, type_id).unwrap();
        match t {
            Type::Never => {
                i += 1;
                continue;
            },
            Type::Literal { kind, .. } => {
                if contains_id(&result, kind.type_id()) {
                    i += 1;
                    continue;
                }
            },
            Type::Primitive { kind, .. } => {
                let ghost before = result@;
                filter_types(env, &mut result, *kind);
                proof {
                    lemma_drop_literals_subset(tys, before, *kind);
                    assert forall|j: int| 0 <= j < result@.len() implies valid(
                        tys,
                        #[trigger] result@[j],
                    ) && (result0.contains(result@[j]) || height(tys, result@[j]) <= ids_height(
                        tys,
                        ids@,
                        bound,
                    )) by {
                        let k = choose|k: int| 0 <= k < before.len() && before[k] == result@[j];
                    }
                }
            },
            Type::Function(_) | Type::Require(_) => {},
            Type::Union(union) => {
                let ghost before = result@;
                result = normalize_union_types(env, &union.types, result, Ghost(type_id.0 as nat));
                proof {
                    assert(model_height(tys, tys[type_id.0 as int], type_id.0 as nat) == height(
                        tys,
                        type_id,
                    ));
                    assert forall|k: int| 0 <= k < result@.len() implies result0.contains(
                        #[trigger] result@[k],
                    ) || height(tys, result@[k]) <= ids_height(tys, ids@, bound) by {
                        if before.contains(result@[k]) {
                            let j = choose|j: int| 0 <= j < before.len() && before[j] == result@[k];
                        }
                    }
                }
                i += 1;
                continue;
            },
            Type::Iface(_) | Type::Global(_) => {},
            Type::Any => {
                proof {
                    assert(tys[1] == TypeModel::Any);
                    assert(ids@[i as int] == TypeId(1));
                }
                return result;
            },
            Type::Unknown => {
                let mut r: Vec<TypeId> = Vec::new();
                r.push(TypeId::UNKNOWN());
                proof {
                    assert(union_members_from(tys, ids@, i as nat, result@, bound) == seq![
                        TypeId(2),
                    ]);
                    assert(r@ =~= seq![TypeId(2)]);
                    assert(tys[2] == TypeModel::Unknown);
                }
                return r;
            },
        }
        result.push(type_id);
        i += 1;
    }
    result
}

/// Normal form of identifier `x` ([norm_id]).
fn normalize_id(env: &mut TypeEnvironment, x: TypeId, Ghost(bound): Ghost<nat>) -> (r: TypeId)
    requires
        root_ok(*old(env)),
        x.0 < bound,
        bound <= old(env).frame().len(),
    ensures
        root_ok(*final(env)),
        extends(final(env).frame(), old(env).frame()),
        (final(env).frame(), r) == norm_id(old(env).frame(), x, bound),
        valid(final(env).frame(), r),
        height(final(env).frame(), r) <= height(old(env).frame(), x),
        new_within(old(env).frame(), final(env).frame(), height(old(env).frame(), x)),
    decreases bound, 0nat,
{
    let t = lookup_root(env, x).unwrap().duplicate();
    let o = normalize_type(env, &t, Ghost(x.0 as nat));
    match o {
        Some(id) => id,
        None => x,
    }
}

/// Normal forms of the identifiers of `ids` ([norm_ids]).
fn normalize_ids(env: &mut TypeEnvironment, ids: &Vec<TypeId>, Ghost(bound): Ghost<nat>) -> (r: Vec<
    TypeId,
>)
    requires
        root_ok(*old(env)),
        bound <= old(env).frame().len(),
        ids_below(ids@, bound),
    ensures
        root_ok(*final(env)),
        extends(final(env).frame(), old(env).frame()),
        (final(env).frame(), r@) == norm_ids(old(env).frame(), ids@, bound),
        r@.len() == ids@.len(),
        forall|j: int|
            0 <= j < r@.len() ==> valid(final(env).frame(), #[trigger] r@[j]) && height(
                final(env).frame(),
                r@[j],
            ) <= height(old(env).frame(), ids@[j]),
        new_within(old(env).frame(), final(env).frame(), ids_height(old(env).frame(), ids@, bound)),
    decreases bound, 1nat,
{
    let ghost tys0 = env.frame();
    let mut r: Vec<TypeId> = Vec::new();
    let mut i: usize = 0;
    while i < ids.len()
        invariant
            i <= ids.len(),
            root_ok(*env),
            extends(env.frame(), tys0),
            bound <= tys0.len(),
            ids_below(ids@, bound),
            (env.frame(), r@) == norm_ids(tys0, ids@.take(i as int), bound),
            r@.len() == i,
            forall|j: int|
                0 <= j < i ==> valid(env.frame(), #[trigger] r@[j]) && height(env.frame(), r@[j])
                    <= height(tys0, ids@[j]),
            new_within(tys0, env.frame(), ids_height(tys0, ids@, bound)),
        decreases ids.len() - i,
    {
        let ghost cur = env.frame();
        let x = ids[i];
        assert(x.0 < bound);
        let y = normalize_id(env, x, Ghost(bound));
        proof {
            broadcast use crate::height::lemma_height_stable;

            assert(ids@.take(i + 1).drop_last() =~= ids@.take(i as int));
            lemma_ids_height_ge(tys0, ids@, bound, i as int);
            assert(height(cur, x) == height(tys0, x));
            assert forall|j: int| 0 <= j < i implies valid(env.frame(), #[trigger] r@[j]) && height(
                env.frame(),
                r@[j],
            ) <= height(tys0, ids@[j]) by {
                assert(height(env.frame(), r@[j]) == height(cur, r@[j]));
            }
            assert forall|z: TypeId| tys0.len() <= z.0 < env.frame().len() implies #[trigger] height(
                env.frame(),
                z,
            ) <= ids_height(tys0, ids@, bound) by {
                if z.0 < cur.len() {
                    assert(height(env.frame(), z) == height(cur, z));
                }
            }
        }
        r.push(y);
        i += 1;
    }
    proof {
        assert(ids@.take(ids.len() as int) =~= ids@);
    }
    r
}

/// Normal forms of the keys and values of `fields` ([norm_fields]).
fn normalize_fields(
    env: &mut TypeEnvironment,
    fields: &Vec<(TypeId, TypeId)>,
    Ghost(bound): Ghost<nat>,
) -> (r: Vec<(TypeId, TypeId)>)
    requires
        root_ok(*old(env)),
        bound <= old(env).frame().len(),
        fields_below(fields@, bound),
    ensures
        root_ok(*final(env)),
        extends(final(env).frame(), old(env).frame()),
        (final(env).frame(), r@) == norm_fields(old(env).frame(), fields@, bound),
        forall|j: int|
            0 <= j < r@.len() ==> valid(final(env).frame(), (#[trigger] r@[j]).0) && valid(
                final(env).frame(),
                r@[j].1,
            ) && height(final(env).frame(), r@[j].0) <= fields_height(
                old(env).frame(),
                fields@,
                bound,
            ) && height(final(env).frame(), r@[j].1) <= fields_height(
                old(env).frame(),
                fields@,
                bound,
            ),
        new_within(
            old(env).frame(),
            final(env).frame(),
            fields_height(old(env).frame(), fields@, bound),
        ),
    decreases bound, 1nat,
{
    let ghost tys0 = env.frame();
    let ghost k = fields_height(tys0, fields@, bound);
    let mut r: Vec<(TypeId, TypeId)> = Vec::new();
    let mut i: usize = 0;
    while i < fields.len()
        invariant
            i <= fields.len(),
            root_ok(*env),
            extends(env.frame(), tys0),
            bound <= tys0.len(),
            fields_below(fields@, bound),
            k == fields_height(tys0, fields@, bound),
            (env.frame(), r@) == norm_fields(tys0, fields@.take(i as int), bound),
            forall|j: int|
                0 <= j < r@.len() ==> valid(env.frame(), (#[trigger] r@[j]).0) && valid(
                    env.frame(),
                    r@[j].1,
                ) && height(env.frame(), r@[j].0) <= k && height(env.frame(), r@[j].1) <= k,
            new_within(tys0, env.frame(), k),
        decreases fields.len() - i,
    {
        let ghost cur = env.frame();
        let (fk, fv) = fields[i];
        assert(fields@[i as int] == (fk, fv));
        proof {
            lemma_fields_height_ge(tys0, fields@, bound, i as int);
        }
        let nk = normalize_id(env, fk, Ghost(bound));
        let ghost mid = env.frame();
        let nv = normalize_id(env, fv, Ghost(bound));
        proof {
            broadcast use crate::height::lemma_height_stable;

            assert(fields@.take(i + 1).drop_last() =~= fields@.take(i as int));
            assert(fields@.take(i + 1).last() == (fk, fv));
            assert(height(cur, fk) == height(tys0, fk));
            assert(height(mid, fv) == height(tys0, fv));
            assert(height(env.frame(), nk) == height(mid, nk));
            assert forall|j: int| 0 <= j < r@.len() implies valid(
                env.frame(),
                (#[trigger] r@[j]).0,
            ) && valid(env.frame(), r@[j].1) && height(env.frame(), r@[j].0) <= k && height(
                env.frame(),
                r@[j].1,
            ) <= k by {
                assert(height(env.frame(), r@[j].0) == height(cur, r@[j].0));
                assert(height(env.frame(), r@[j].1) == height(cur, r@[j].1));
            }
            assert forall|z: TypeId| tys0.len() <= z.0 < env.frame().len() implies #[trigger] height(
                env.frame(),
                z,
            ) <= k by {
                if z.0 < cur.len() {
                    assert(height(env.frame(), z) == height(cur, z));
                } else if z.0 < mid.len() {
                    assert(height(env.frame(), z) == height(mid, z));
                }
            }
        }
        r.push((nk, nv));
        i += 1;
    }
    proof {
        assert(fields@.take(fields.len() as int) =~= fields@);
    }
    r
}

/// Registered normal form of a function type ([norm_function]).
fn normalize_function(env: &mut TypeEnvironment, f: &FunctionType, Ghost(bound): Ghost<nat>) -> (r:
    TypeId)
    requires
        root_ok(*old(env)),
        bound <= old(env).frame().len(),
        ids_below(f.params@, bound),
        ids_below(f.results@, bound),
    ensures
        root_ok(*final(env)),
        extends(final(env).frame(), old(env).frame()),
        (final(env).frame(), r) == norm_function(old(env).frame(), f.params@, f.results@, bound),
        valid(final(env).frame(), r),
        final(env).frame()[r.0 as int] is Function,
        height(final(env).frame(), r) <= model_height(
            old(env).frame(),
            TypeModel::Function { params: f.params@, results: f.results@ },
            bound,
        ),
        new_within(
            old(env).frame(),
            final(env).frame(),
            model_height(
                old(env).frame(),
                TypeModel::Function { params: f.params@, results: f.results@ },
                bound,
            ),
        ),
    decreases bound, 2nat,
{
    let ghost tys0 = env.frame();
    let ghost kp = ids_height(tys0, f.params@, bound);
    let ghost kr = ids_height(tys0, f.results@, bound);
    let params = normalize_ids(env, &f.params, Ghost(bound));
    let ghost a = env.frame();
    proof {
        lemma_ids_height_ext(tys0, a, f.results@, bound);
    }
    let results = normalize_ids(env, &f.results, Ghost(bound));
    let ghost b = env.frame();
    let ghost ps = params@;
    let ghost rs = results@;
    proof {
        broadcast use crate::height::lemma_height_stable;

        assert forall|j: int| 0 <= j < ps.len() implies valid(b, #[trigger] ps[j]) by {}
    }
    let id = register_root(env, Type::Function(FunctionType::new(params, results)));
    proof {
        broadcast use crate::height::lemma_height_stable;

        let c = env.frame();
        assert forall|j: int| 0 <= j < ps.len() && ps[j].0 < id.0 implies height(
            c,
            #[trigger] ps[j],
        ) <= kp by {
            assert(height(c, ps[j]) == height(a, ps[j]));
            lemma_ids_height_ge(tys0, f.params@, bound, j);
        }
        lemma_ids_height_le(c, ps, id.0 as nat, kp);
        assert forall|j: int| 0 <= j < rs.len() && rs[j].0 < id.0 implies height(
            c,
            #[trigger] rs[j],
        ) <= kr by {
            assert(height(c, rs[j]) == height(b, rs[j]));
            assert(height(a, f.results@[j]) == height(tys0, f.results@[j]));
            lemma_ids_height_ge(tys0, f.results@, bound, j);
        }
        lemma_ids_height_le(c, rs, id.0 as nat, kr);
        assert(height(c, id) == model_height(c, c[id.0 as int], id.0 as nat));
        assert forall|z: TypeId| tys0.len() <= z.0 < c.len() implies #[trigger] height(c, z)
            <= 1 + max_nat(kp, kr) by {
            if z.0 < a.len() {
                assert(height(c, z) == height(a, z));
            } else if z.0 < b.len() {
                assert(height(c, z) == height(b, z));
            }
        }
    }
    id
}

/// Entries of [fields_from] come from the given pairs.
pub(crate) proof fn lemma_fields_from_in(pairs: Seq<(TypeId, TypeId)>)
    ensures
        forall|j: int|
            0 <= j < fields_from(pairs).len() ==> pairs.contains(#[trigger] fields_from(pairs)[j]),
    decreases pairs.len(),
{
    if pairs.len() > 0 {
        let rest = pairs.drop_last();
        lemma_fields_from_in(rest);
        let (k, v) = pairs.last();
        lemma_fields_insert_in(fields_from(rest), k, v);
        assert forall|j: int| 0 <= j < fields_from(pairs).len() implies pairs.contains(
            #[trigger] fields_from(pairs)[j],
        ) by {
            let e = fields_from(pairs)[j];
            if e == (k, v) {
                assert(pairs[pairs.len() - 1] == (k, v));
            } else {
                let m = choose|m: int|
                    0 <= m < fields_from(rest).len() && fields_from(rest)[m] == e;
                let n = choose|n: int| 0 <= n < rest.len() && rest[n] == e;
                assert(pairs[n] == e);
            }
        }
    }
}

/// Entries of [fields_insert] are the inserted pair or entries of the input.
proof fn lemma_fields_insert_in(fields: Seq<(TypeId, TypeId)>, k: TypeId, v: TypeId)
    ensures
        forall|j: int|
            0 <= j < fields_insert(fields, k, v).len() ==> #[trigger] fields_insert(fields, k, v)[j]
                == (k, v) || fields.contains(fields_insert(fields, k, v)[j]),
    decreases fields.len(),
{
    if fields.len() > 0 {
        lemma_fields_insert_in(fields.drop_first(), k, v);
        let r = fields_insert(fields, k, v);
        assert forall|j: int| 0 <= j < r.len() implies #[trigger] r[j] == (k, v) || fields.contains(
            r[j],
        ) by {
            if fields[0].0 == k {
                if j > 0 {
                    assert(r[j] == fields[j]);
                }
            } else if k.0 < fields[0].0.0 {
                if j > 0 {
                    assert(r[j] == fields[j - 1]);
                }
            } else {
                if j == 0 {
                    assert(r[0] == fields[0]);
                } else {
                    let rest = fields_insert(fields.drop_first(), k, v);
                    assert(r[j] == rest[j - 1]);
                    if r[j] != (k, v) {
                        let m = choose|m: int|
                            0 <= m < fields.drop_first().len() && fields.drop_first()[m] == r[j];
                        assert(fields[m + 1] == r[j]);
                    }
                }
            }
        }
    }
}

/// Registered normal form of an interface type ([norm_iface]).
fn normalize_iface(env: &mut TypeEnvironment, iface: &IfaceType, Ghost(bound): Ghost<nat>) -> (r:
    TypeId)
    requires
        root_ok(*old(env)),
        bound <= old(env).frame().len(),
        fields_below(iface@, bound),
    ensures
        root_ok(*final(env)),
        extends(final(env).frame(), old(env).frame()),
        (final(env).frame(), r) == norm_iface(old(env).frame(), iface@, bound),
        valid(final(env).frame(), r),
        final(env).frame()[r.0 as int] is Iface,
        height(final(env).frame(), r) <= model_height(
            old(env).frame(),
            TypeModel::Iface { fields: iface@ },
            bound,
        ),
        new_within(
            old(env).frame(),
            final(env).frame(),
            model_height(old(env).frame(), TypeModel::Iface { fields: iface@ }, bound),
        ),
    decreases bound, 2nat,
{
    let ghost tys0 = env.frame();
    let ghost k = fields_height(tys0, iface@, bound);
    let pairs = normalize_fields(env, iface.fields(), Ghost(bound));
    let ghost a = env.frame();
    let normalized = IfaceType::new(pairs);
    proof {
        lemma_fields_from_in(pairs@);
        assert forall|j: int| 0 <= j < normalized@.len() implies (#[trigger] normalized@[j]).0.0
            < a.len() && normalized@[j].1.0 < a.len() by {
            let m = choose|m: int| 0 <= m < pairs@.len() && pairs@[m] == normalized@[j];
        }
    }
    let id = register_root(env, Type::Iface(normalized));
    proof {
        broadcast use crate::height::lemma_height_stable;

        let c = env.frame();
        let fs = normalized@;
        assert forall|j: int| 0 <= j < fs.len() implies (fs[j].0.0 < id.0 ==> height(
            c,
            (#[trigger] fs[j]).0,
        ) <= k) && (fs[j].1.0 < id.0 ==> height(c, fs[j].1) <= k) by {
            let m = choose|m: int| 0 <= m < pairs@.len() && pairs@[m] == fs[j];
            assert(height(c, fs[j].0) == height(a, fs[j].0));
            assert(height(c, fs[j].1) == height(a, fs[j].1));
        }
        lemma_fields_height_le(c, fs, id.0 as nat, k);
        assert(height(c, id) == model_height(c, c[id.0 as int], id.0 as nat));
        assert forall|z: TypeId| tys0.len() <= z.0 < c.len() implies #[trigger] height(c, z) <= 1
            + k by {
            if z.0 < a.len() {
                assert(height(c, z) == height(a, z));
            }
        }
    }
    id
}

/// Registered normal form of a union type ([norm_union]).
fn normalize_union(env: &mut TypeEnvironment, u: &UnionType, Ghost(bound): Ghost<nat>) -> (r:
    TypeId)
    requires
        root_ok(*old(env)),
        bound <= old(env).frame().len(),
        ids_below(u.types@, bound),
    ensures
        root_ok(*final(env)),
        extends(final(env).frame(), old(env).frame()),
        (final(env).frame(), r) == norm_union(old(env).frame(), u.types@, bound),
        valid(final(env).frame(), r),
        height(final(env).frame(), r) <= model_height(
            old(env).frame(),
            TypeModel::Union { types: u.types@ },
            bound,
        ),
        new_within(
            old(env).frame(),
            final(env).frame(),
            model_height(old(env).frame(), TypeModel::Union { types: u.types@ }, bound),
        ),
    decreases bound, 2nat,
{
    let ghost tys0 = env.frame();
    let ghost k = ids_height(tys0, u.types@, bound);
    let empty: Vec<TypeId> = Vec::new();
    let members = normalize_union_types(env, &u.types, empty, Ghost(bound));
    if members.len() == 0 {
        return TypeId::NEVER();
    }
    if members.len() == 1 {
        return members[0];
    }
    let ghost ms = members@;
    let id = register_root(env, Type::Union(UnionType::new(members)));
    proof {
        broadcast use crate::height::lemma_height_stable;

        let c = env.frame();
        assert forall|j: int| 0 <= j < ms.len() && ms[j].0 < id.0 implies height(
            c,
            #[trigger] ms[j],
        ) <= k by {
            assert(height(c, ms[j]) == height(tys0, ms[j]));
        }
        lemma_ids_height_le(c, ms, id.0 as nat, k);
        assert(height(c, id) == model_height(c, c[id.0 as int], id.0 as nat));
    }
    id
}

/// Normal form of `t` ([norm]): functions and interfaces get normalized
/// components, unions normalized members; other types have none.
pub(crate) fn normalize_type(env: &mut TypeEnvironment, t: &Type, Ghost(bound): Ghost<nat>) -> (r: Option<
    TypeId,
>)
    requires
        root_ok(*old(env)),
        bound <= old(env).frame().len(),
        refs_below(t@, bound),
    ensures
        root_ok(*final(env)),
        extends(final(env).frame(), old(env).frame()),
        (final(env).frame(), r) == norm(old(env).frame(), t@, bound),
        match r {
            Some(id) => valid(final(env).frame(), id) && height(final(env).frame(), id)
                <= model_height(old(env).frame(), t@, bound),
            None => final(env).frame() == old(env).frame(),
        },
        (t@ is Function || t@ is Require) ==> (r is Some && final(env).frame()[r.unwrap().0 as int] is Function),
        (t@ is Iface || t@ is Global) ==> (r is Some && final(env).frame()[r.unwrap().0 as int] is Iface),
        (t@ is Union) ==> r is Some,
        new_within(old(env).frame(), final(env).frame(), model_height(old(env).frame(), t@, bound)),
    decreases bound, 3nat,
{
    match t {
        Type::Function(f) => Some(normalize_function(env, f, Ghost(bound))),
        Type::Require(f) => Some(normalize_function(env, f, Ghost(bound))),
        Type::Iface(i) => Some(normalize_iface(env, i, Ghost(bound))),
        Type::Global(i) => Some(normalize_iface(env, i, Ghost(bound))),
        Type::Union(u) => Some(normalize_union(env, u, Ghost(bound))),
        _ => None,
    }
}

/// In a root environment, [TypeEnvironment::flatten_union] is [flatten].
proof fn lemma_flatten_root(env: TypeEnvironment, types: Seq<TypeId>)
    requires
        env.parent_of() is None,
        env.base() == 0,
    ensures
        env.flatten_union(types) == flatten(env.frame(), types),
    decreases types.len(),
{
    env.lemma_root();
    if types.len() > 0 {
        lemma_flatten_root(env, types.drop_last());
    }
}

/// Members of [flatten] are valid and no higher than the highest input
/// identifier.
proof fn lemma_flatten_bound(tys: Seq<TypeModel>, types: Seq<TypeId>, k: nat)
    requires
        wf_types(tys),
        forall|j: int|
            0 <= j < types.len() ==> valid(tys, #[trigger] types[j]) && height(tys, types[j]) <= k,
    ensures
        forall|j: int|
            0 <= j < flatten(tys, types).len() ==> valid(tys, #[trigger] flatten(tys, types)[j])
                && height(tys, flatten(tys, types)[j]) <= k,
    decreases types.len(),
{
    if types.len() > 0 {
        let rest = types.drop_last();
        assert forall|j: int| 0 <= j < rest.len() implies valid(tys, #[trigger] rest[j]) && height(
            tys,
            rest[j],
        ) <= k by {
            assert(rest[j] == types[j]);
        }
        lemma_flatten_bound(tys, rest, k);
        let x = types.last();
        assert(types[types.len() - 1] == x);
        let f = flatten(tys, types);
        let fr = flatten(tys, rest);
        if x.0 < tys.len() {
            match tys[x.0 as int] {
                TypeModel::Union { types: members } => {
                    assert(refs_below(tys[x.0 as int], x.0 as nat));
                    assert forall|j: int| 0 <= j < f.len() implies valid(tys, #[trigger] f[j])
                        && height(tys, f[j]) <= k by {
                        if j < fr.len() {
                            assert(f[j] == fr[j]);
                        } else {
                            let m = j - fr.len();
                            assert(f[j] == members[m]);
                            lemma_ids_height_ge(tys, members, x.0 as nat, m);
                        }
                    }
                },
                _ => {
                    assert forall|j: int| 0 <= j < f.len() implies valid(tys, #[trigger] f[j])
                        && height(tys, f[j]) <= k by {
                        if j < fr.len() {
                            assert(f[j] == fr[j]);
                        }
                    }
                },
            }
        } else {
            assert forall|j: int| 0 <= j < f.len() implies valid(tys, #[trigger] f[j]) && height(
                tys,
                f[j],
            ) <= k by {
                if j < fr.len() {
                    assert(f[j] == fr[j]);
                }
            }
        }
    }
}

/// Creates the union of `types` in a root environment ([union_of]).
pub(crate) fn union_root(env: &mut TypeEnvironment, types: Vec<TypeId>) -> (id: TypeId)
    requires
        root_ok(*old(env)),
        forall|j: int| 0 <= j < types@.len() ==> valid(old(env).frame(), #[trigger] types@[j]),
    ensures
        root_ok(*final(env)),
        extends(final(env).frame(), old(env).frame()),
        (final(env).frame(), id) == union_of(old(env).frame(), types@),
        valid(final(env).frame(), id),
{
    proof {
        env.lemma_root();
        lemma_flatten_root(*env, types@);
        let k = ids_height(env.frame(), types@, env.frame().len());
        assert forall|j: int| 0 <= j < types@.len() implies valid(env.frame(), #[trigger] types@[j])
            && height(env.frame(), types@[j]) <= k by {
            lemma_ids_height_ge(env.frame(), types@, env.frame().len(), j);
        }
        lemma_flatten_bound(env.frame(), types@, k);
        assert forall|j: int| 0 <= j < types@.len() implies env.spec_lookup(#[trigger] types@[j])
            is Some by {}
    }
    let ghost before = env.frame();
    let ghost flat = flatten(before, types@);
    let id = env.union(types);
    proof {
        env.lemma_root();
        if flat.len() != 1 {
            assert(forall|i: int| 0 <= i < before.len() ==> #[trigger] env.frame()[i] == before[i]);
            match find_type(before, TypeModel::Union { types: flat }) {
                Some(i) => {},
                None => {
                    assert(env.frame()[before.len() as int] == TypeModel::Union { types: flat });
                },
            }
        }
    }
    id
}

/// Type of field `field` of `t` ([field_type]); no higher than `t`.
pub(crate) fn field_type_of(
    env: &mut TypeEnvironment,
    t: &Type,
    field: TypeId,
    Ghost(bound): Ghost<nat>,
    legacy: bool,
) -> (r: Option<TypeId>)
    requires
        root_ok(*old(env)),
        bound <= old(env).frame().len(),
        refs_below(t@, bound),
    ensures
        root_ok(*final(env)),
        extends(final(env).frame(), old(env).frame()),
        (final(env).frame(), r) == field_type(old(env).frame(), t@, field, bound, legacy),
        match r {
            Some(id) => valid(final(env).frame(), id) && height(final(env).frame(), id)
                <= model_height(old(env).frame(), t@, bound),
            None => true,
        },
    decreases bound,
{
    let ghost tys0 = env.frame();
    match t {
        Type::Never => Some(TypeId::NEVER()),
        Type::Iface(i) => {
            let r = i.get(field);
            proof {
                if r is Some {
                    lemma_fields_get_index(i@, field);
                    let j = choose|j: int|
                        0 <= j < i@.len() && #[trigger] i@[j] == (field, r.unwrap());
                    lemma_fields_height_ge(tys0, i@, bound, j);
                }
            }
            r
        },
        Type::Global(i) => {
            let r = i.get(field);
            proof {
                if r is Some {
                    lemma_fields_get_index(i@, field);
                    let j = choose|j: int|
                        0 <= j < i@.len() && #[trigger] i@[j] == (field, r.unwrap());
                    lemma_fields_height_ge(tys0, i@, bound, j);
                }
            }
            r
        },
        Type::Any => Some(TypeId::ANY()),
        Type::Union(u) => {
            let ghost k = ids_height(tys0, u.types@, bound);
            let mut found: Vec<TypeId> = Vec::new();
            let mut i: usize = 0;
            while i < u.types.len()
                invariant
                    i <= u.types.len(),
                    root_ok(*env),
                    extends(env.frame(), tys0),
                    bound <= tys0.len(),
                    ids_below(u.types@, bound),
                    k == ids_height(tys0, u.types@, bound),
                    (env.frame(), found@) == member_field_types(
                        tys0,
                        u.types@.take(i as int),
                        field,
                        bound,
                        legacy,
                    ),
                    forall|j: int|
                        0 <= j < found@.len() ==> valid(env.frame(), #[trigger] found@[j]) && height(
                            env.frame(),
                            found@[j],
                        ) <= k,
                decreases u.types.len() - i,
            {
                let ghost cur = env.frame();
                let x = u.types[i];
                assert(x.0 < bound);
                proof {
                    assert(u.types@.take(i + 1).drop_last() =~= u.types@.take(i as int));
                    lemma_ids_height_ge(tys0, u.types@, bound, i as int);
                }
                let member = lookup_root(env, x).unwrap().duplicate();
                let o = field_type_of(env, &member, field, Ghost(x.0 as nat), legacy);
                proof {
                    broadcast use crate::height::lemma_height_stable;

                    assert(height(cur, x) == height(tys0, x));
                    assert forall|j: int| 0 <= j < found@.len() implies valid(
                        env.frame(),
                        #[trigger] found@[j],
                    ) && height(env.frame(), found@[j]) <= k by {
                        assert(height(env.frame(), found@[j]) == height(cur, found@[j]));
                    }
                }
                match o {
                    Some(f) => {
                        found.push(f);
                    },
                    None => {},
                }
                i += 1;
            }
            proof {
                assert(u.types@.take(u.types.len() as int) =~= u.types@);
            }
            if found.len() == 0 {
                return None;
            }
            let ghost a = env.frame();
            let ghost fs = found@;
            if legacy {
                let t = Type::Union(UnionType::new(found));
                let r = normalize_type(env, &t, Ghost(a.len()));
                proof {
                    lemma_ids_height_le(a, fs, a.len(), k);
                }
                r
            } else {
                proof {
                    lemma_flatten_bound(a, fs, k);
                }
                let id = union_root(env, found);
                let ghost b = env.frame();
                proof {
                    broadcast use crate::height::lemma_height_stable;

                    let flat = flatten(a, fs);
                    if flat.len() == 1 {
                        assert(height(b, id) == height(a, flat[0]));
                    } else {
                        assert(b[id.0 as int] == TypeModel::Union { types: flat });
                        assert(refs_below(b[id.0 as int], id.0 as nat));
                        assert forall|j: int| 0 <= j < flat.len() && flat[j].0 < id.0 implies height(
                            b,
                            #[trigger] flat[j],
                        ) <= k by {
                            assert(height(b, flat[j]) == height(a, flat[j]));
                        }
                        lemma_ids_height_le(b, flat, id.0 as nat, k);
                    }
                    assert(height(b, id) == model_height(b, b[id.0 as int], id.0 as nat));
                }
                let u2 = lookup_root(env, id).unwrap().duplicate();
                normalize_type(env, &u2, Ghost(id.0 as nat))
            }
        },
        _ => None,
    }
}

/// Every identifier kept by [drop_literals] was in the input.
pub proof fn lemma_drop_literals_subset(tys: Seq<TypeModel>, ids: Seq<TypeId>, kind: PrimitiveKind)
    ensures
        forall|i: int|
            0 <= i < drop_literals(tys, ids, kind).len() ==> ids.contains(
                #[trigger] drop_literals(tys, ids, kind)[i],
            ),
    decreases ids.len(),
{
    if ids.len() > 0 {
        lemma_drop_literals_subset(tys, ids.drop_last(), kind);
        let rest = drop_literals(tys, ids.drop_last(), kind);
        assert forall|i: int| 0 <= i < drop_literals(tys, ids, kind).len() implies ids.contains(
            #[trigger] drop_literals(tys, ids, kind)[i],
        ) by {
            let d = drop_literals(tys, ids, kind);
            if i < rest.len() {
                assert(d[i] == rest[i]);
                let k = choose|k: int| 0 <= k < ids.drop_last().len() && ids.drop_last()[k] == rest[i];
                assert(ids[k] == rest[i]);
            } else {
                assert(d[i] == ids.last());
                assert(ids[ids.len() - 1] == ids.last());
            }
        }
    }
}

} // verus!
