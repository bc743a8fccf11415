//! Properties that hold of the type checkers for every state of their
//! environment.
use vstd::prelude::*;

use crate::assign::{assignable, ca, ca_models, incompatible, measure, normalized};
use crate::env::{find_type, refs_below, root_types};
use crate::errors::CheckErr;
use crate::height::extends;
use crate::normalize::{
    drop_literals, field_type, is_literal_of, lemma_drop_literals_subset, norm, norm_fields, norm_id,
    norm_ids,
    norm_union, reg, union_members, union_members_from, valid, wf_types,
};
use crate::types::{fields_from, fields_get, fields_insert, PrimitiveKind, TypeId, TypeModel};

verus! {

/// Registering only appends types.
pub proof fn lemma_reg_extends(tys: Seq<TypeModel>, t: TypeModel)
    ensures
        extends(reg(tys, t).0, tys),
{
}

/// The identifier [reg] returns names the registered type.
pub proof fn lemma_reg_at(tys: Seq<TypeModel>, t: TypeModel)
    requires
        tys.len() < usize::MAX,
    ensures
        reg(tys, t).1.0 < reg(tys, t).0.len(),
        reg(tys, t).0[reg(tys, t).1.0 as int] == t,
        extends(reg(tys, t).0, tys),
{
    match find_type(tys, t) {
        Some(i) => {
            assert(0 <= i < tys.len() && tys[i] == t);
        },
        None => {},
    }
}

/// Normalization only appends types.
pub proof fn lemma_norm_extends(tys: Seq<TypeModel>, t: TypeModel, bound: nat)
    ensures
        extends(norm(tys, t, bound).0, tys),
    decreases bound, 2nat, 0nat,
{
    match t {
        TypeModel::Function { params, results } => {
            lemma_norm_ids_extends(tys, params, bound);
            let (a, ps) = norm_ids(tys, params, bound);
            lemma_norm_ids_extends(a, results, bound);
            let (b, rs) = norm_ids(a, results, bound);
            lemma_reg_extends(b, TypeModel::Function { params: ps, results: rs });
        },
        TypeModel::Require { params, results } => {
            lemma_norm_ids_extends(tys, params, bound);
            let (a, ps) = norm_ids(tys, params, bound);
            lemma_norm_ids_extends(a, results, bound);
            let (b, rs) = norm_ids(a, results, bound);
            lemma_reg_extends(b, TypeModel::Function { params: ps, results: rs });
        },
        TypeModel::Iface { fields } => {
            lemma_norm_fields_extends(tys, fields, bound);
            let (a, pairs) = norm_fields(tys, fields, bound);
            lemma_reg_extends(a, TypeModel::Iface { fields: fields_from(pairs) });
        },
        TypeModel::Global { fields } => {
            lemma_norm_fields_extends(tys, fields, bound);
            let (a, pairs) = norm_fields(tys, fields, bound);
            lemma_reg_extends(a, TypeModel::Iface { fields: fields_from(pairs) });
        },
        TypeModel::Union { types } => {
            let members = union_members(tys, types, seq![], bound);
            lemma_reg_extends(tys, TypeModel::Union { types: members });
        },
        _ => {},
    }
}

/// [lemma_norm_extends] for an identifier.
pub proof fn lemma_norm_id_extends(tys: Seq<TypeModel>, x: TypeId, bound: nat)
    ensures
        extends(norm_id(tys, x, bound).0, tys),
    decreases bound, 0nat, 0nat,
{
    if x.0 < bound && x.0 < tys.len() {
        lemma_norm_extends(tys, tys[x.0 as int], x.0 as nat);
    }
}

/// [lemma_norm_extends] for a sequence of identifiers.
pub proof fn lemma_norm_ids_extends(tys: Seq<TypeModel>, ids: Seq<TypeId>, bound: nat)
    ensures
        extends(norm_ids(tys, ids, bound).0, tys),
    decreases bound, 0nat, ids.len(),
{
    if ids.len() > 0 {
        lemma_norm_ids_extends(tys, ids.drop_last(), bound);
        let (a, acc) = norm_ids(tys, ids.drop_last(), bound);
        lemma_norm_id_extends(a, ids.last(), bound);
    }
}

/// [lemma_norm_extends] for a sequence of fields.
pub proof fn lemma_norm_fields_extends(
    tys: Seq<TypeModel>,
    fields: Seq<(TypeId, TypeId)>,
    bound: nat,
)
    ensures
        extends(norm_fields(tys, fields, bound).0, tys),
    decreases bound, 0nat, fields.len(),
{
    if fields.len() > 0 {
        lemma_norm_fields_extends(tys, fields.drop_last(), bound);
        let (a, acc) = norm_fields(tys, fields.drop_last(), bound);
        lemma_norm_id_extends(a, fields.last().0, bound);
        let (b, k) = norm_id(a, fields.last().0, bound);
        lemma_norm_id_extends(b, fields.last().1, bound);
    }
}

/// Normalization of a valid identifier only appends types.
proof fn lemma_normalized(tys: Seq<TypeModel>, id: TypeId)
    requires
        valid(tys, id),
    ensures
        extends(normalized(tys, id).0, tys),
{
    lemma_norm_extends(tys, tys[id.0 as int], id.0 as nat);
}

/// Registering a type twice gives the same identifier and leaves the types
/// as the first registration left them; the identifier names the type.
pub proof fn law_register_idempotent(tys: Seq<TypeModel>, t: TypeModel)
    requires
        wf_types(tys),
        tys.len() < usize::MAX,
    ensures
        reg(reg(tys, t).0, t) == reg(tys, t),
        reg(tys, t).0[reg(tys, t).1.0 as int] == t,
{
    lemma_reg_at(tys, t);
    let (a, id) = reg(tys, t);
    match find_type(tys, t) {
        Some(i) => {
            assert(a == tys);
        },
        None => {
            assert(a[tys.len() as int] == t);
            assert(exists|j: int| 0 <= j < a.len() && a[j] == t);
            let j = choose|j: int| 0 <= j < a.len() && a[j] == t;
            if j < tys.len() {
                assert(tys[j] == t);
                assert(false);
            }
        },
    }
}

/// Every type is assignable to itself, and checking it changes nothing.
pub proof fn law_assign_reflexive(tys: Seq<TypeModel>, x: TypeId, legacy: bool)
    ensures
        assignable(tys, x, x, legacy) == (tys, Ok::<(), CheckErr>(())),
{
}

/// `never` is assignable to every type of the environment.
pub proof fn law_never_assignable_to_all(tys: Seq<TypeModel>, t: TypeId, legacy: bool)
    requires
        wf_types(tys),
        valid(tys, t),
    ensures
        assignable(tys, TypeId(0), t, legacy).1 == Ok::<(), CheckErr>(()),
{
    assert(tys[0] == root_types()[0]);
}

/// Every type of the environment is assignable to `any`.
pub proof fn law_all_assignable_to_any(tys: Seq<TypeModel>, s: TypeId, legacy: bool)
    requires
        wf_types(tys),
        valid(tys, s),
    ensures
        assignable(tys, s, TypeId(1), legacy).1 == Ok::<(), CheckErr>(()),
{
    assert(tys[1] == root_types()[1]);
    if s != TypeId(1) {
        let (a, sm) = normalized(tys, s);
        lemma_normalized(tys, s);
        assert(a[1] == TypeModel::Any);
    }
}

/// Every type of the environment is assignable to `unknown`.
pub proof fn law_all_assignable_to_unknown(tys: Seq<TypeModel>, s: TypeId, legacy: bool)
    requires
        wf_types(tys),
        valid(tys, s),
    ensures
        assignable(tys, s, TypeId(2), legacy).1 == Ok::<(), CheckErr>(()),
{
    assert(tys[2] == root_types()[2]);
    if s != TypeId(2) {
        let (a, sm) = normalized(tys, s);
        lemma_normalized(tys, s);
        assert(a[2] == TypeModel::Unknown);
    }
}

/// `any` is not assignable to `never`, for no reason beyond that.
pub proof fn law_any_not_assignable_to_never(tys: Seq<TypeModel>, legacy: bool)
    requires
        wf_types(tys),
    ensures
        assignable(tys, TypeId(1), TypeId(0), legacy) == (tys, incompatible(
            TypeId(1),
            TypeId(0),
            seq![],
        )),
{
    assert(tys[0] == root_types()[0]);
    assert(tys[1] == root_types()[1]);
}

/// A literal type is assignable to the primitive type of its kind.
pub proof fn law_literal_assignable_to_primitive(tys: Seq<TypeModel>, l: TypeId, legacy: bool)
    requires
        wf_types(tys),
        valid(tys, l),
        tys[l.0 as int] is Literal,
    ensures
        assignable(tys, l, tys[l.0 as int]->Literal_kind.spec_type_id(), legacy).1 == Ok::<
            (),
            CheckErr,
        >(()),
{
    let kind = tys[l.0 as int]->Literal_kind;
    let p = kind.spec_type_id();
    assert(tys[p.0 as int] == root_types()[p.0 as int]);
}

/// A literal type is assignable to a literal type with the same value.
pub proof fn law_equal_literals_assignable(tys: Seq<TypeModel>, s: TypeId, t: TypeId, legacy: bool)
    requires
        wf_types(tys),
        valid(tys, s),
        valid(tys, t),
        tys[s.0 as int] is Literal,
        tys[t.0 as int] is Literal,
        tys[s.0 as int]->Literal_value == tys[t.0 as int]->Literal_value,
    ensures
        assignable(tys, s, t, legacy).1 == Ok::<(), CheckErr>(()),
{
}

/// Primitive types of the same kind are assignable to each other.
pub proof fn law_same_kind_primitives_assignable(
    tys: Seq<TypeModel>,
    s: TypeId,
    t: TypeId,
    legacy: bool,
)
    requires
        wf_types(tys),
        valid(tys, s),
        valid(tys, t),
        tys[s.0 as int] is Primitive,
        tys[t.0 as int] is Primitive,
        tys[s.0 as int]->Primitive_kind == tys[t.0 as int]->Primitive_kind,
    ensures
        assignable(tys, s, t, legacy).1 == Ok::<(), CheckErr>(()),
{
}

/// A union of one literal, primitive, function or interface type
/// normalizes to that type.
pub proof fn law_single_member_union(tys: Seq<TypeModel>, x: TypeId, bound: nat)
    requires
        wf_types(tys),
        valid(tys, x),
        x.0 < bound,
        !(tys[x.0 as int] is Union),
        !(tys[x.0 as int] is Never),
        !(tys[x.0 as int] is Any),
        !(tys[x.0 as int] is Unknown),
    ensures
        norm_union(tys, seq![x], bound) == (tys, x),
{
    let ids = seq![x];
    if ids.contains(TypeId(1)) {
        assert(ids[0] == TypeId(1));
        assert(tys[1] == root_types()[1]);
    }
    let e = Seq::<TypeId>::empty();
    assert(!e.contains(x));
    match tys[x.0 as int] {
        TypeModel::Literal { kind, .. } => {
            assert(!e.contains(kind.spec_type_id()));
            assert(union_members_from(tys, ids, 1, e.push(x), bound) == e.push(x));
        },
        TypeModel::Primitive { kind, .. } => {
            assert(drop_literals(tys, e, kind) =~= e);
            assert(union_members_from(tys, ids, 1, e.push(x), bound) == e.push(x));
        },
        _ => {
            assert(union_members_from(tys, ids, 1, e.push(x), bound) == e.push(x));
        },
    }
    assert(union_members(tys, ids, e, bound) =~= seq![x]);
}

/// A union with `any` among its members normalizes to `any`.
pub proof fn law_union_with_any_is_any(tys: Seq<TypeModel>, ids: Seq<TypeId>, bound: nat)
    requires
        ids.contains(TypeId(1)),
    ensures
        norm_union(tys, ids, bound) == (tys, TypeId(1)),
{
    assert(union_members(tys, ids, seq![], bound) =~= seq![TypeId(1)]);
}

/// Members without duplicates, each a valid type that is neither a union
/// nor `never`.
pub open spec fn flat_members(tys: Seq<TypeModel>, r: Seq<TypeId>) -> bool {
    &&& forall|i: int, j: int| 0 <= i < j < r.len() ==> r[i] != r[j]
    &&& forall|i: int|
        0 <= i < r.len() ==> valid(tys, #[trigger] r[i]) && !(tys[r[i].0 as int] is Union) && !(
        tys[r[i].0 as int] is Never)
}

/// Dropping literals keeps members flat.
proof fn lemma_drop_literals_flat(tys: Seq<TypeModel>, r: Seq<TypeId>, kind: PrimitiveKind)
    requires
        flat_members(tys, r),
    ensures
        flat_members(tys, drop_literals(tys, r, kind)),
    decreases r.len(),
{
    if r.len() > 0 {
        let init = r.drop_last();
        assert(flat_members(tys, init)) by {
            assert forall|i: int| 0 <= i < init.len() implies valid(tys, #[trigger] init[i]) && !(
            tys[init[i].0 as int] is Union) && !(tys[init[i].0 as int] is Never) by {
                assert(init[i] == r[i]);
            }
        }
        lemma_drop_literals_flat(tys, init, kind);
        lemma_drop_literals_subset(tys, init, kind);
        let rest = drop_literals(tys, init, kind);
        let x = r.last();
        assert(r[r.len() - 1] == x);
        if !is_literal_of(tys, x, kind) {
            assert(!rest.contains(x)) by {
                if rest.contains(x) {
                    let k = choose|k: int| 0 <= k < rest.len() && rest[k] == x;
                    let m = choose|m: int| 0 <= m < init.len() && init[m] == rest[k];
                    assert(r[m] == x);
                }
            }
            let d = rest.push(x);
            assert forall|i: int| 0 <= i < d.len() implies valid(tys, #[trigger] d[i]) && !(
            tys[d[i].0 as int] is Union) && !(tys[d[i].0 as int] is Never) by {
                if i < rest.len() {
                    assert(d[i] == rest[i]);
                }
            }
            assert forall|i: int, j: int| 0 <= i < j < d.len() implies d[i] != d[j] by {
                if j == rest.len() {
                    assert(d[i] == rest[i]);
                } else {
                    assert(d[i] == rest[i]);
                    assert(d[j] == rest[j]);
                }
            }
        }
    }
}

/// [union_members] keeps members flat.
proof fn lemma_union_members_flat(
    tys: Seq<TypeModel>,
    ids: Seq<TypeId>,
    result: Seq<TypeId>,
    bound: nat,
)
    requires
        wf_types(tys),
        flat_members(tys, result),
    ensures
        flat_members(tys, union_members(tys, ids, result, bound)),
    decreases bound, 1nat, 0nat,
{
    if ids.contains(TypeId(1)) {
        assert(tys[1] == root_types()[1]);
        let r = seq![TypeId(1)];
        assert(r[0] == TypeId(1));
    } else {
        lemma_union_members_from_flat(tys, ids, 0, result, bound);
    }
}

/// [union_members_from] keeps members flat.
proof fn lemma_union_members_from_flat(
    tys: Seq<TypeModel>,
    ids: Seq<TypeId>,
    i: nat,
    result: Seq<TypeId>,
    bound: nat,
)
    requires
        wf_types(tys),
        flat_members(tys, result),
    ensures
        flat_members(tys, union_members_from(tys, ids, i, result, bound)),
    decreases bound, 0nat, ids.len() - i,
{
    if i < ids.len() {
        let x = ids[i as int];
        if !result.contains(x) && x.0 < bound && x.0 < tys.len() {
            let pushed = result.push(x);
            assert(!(tys[x.0 as int] is Union) && !(tys[x.0 as int] is Never) ==> flat_members(
                tys,
                pushed,
            )) by {
                if !(tys[x.0 as int] is Union) && !(tys[x.0 as int] is Never) {
                    assert forall|k: int| 0 <= k < pushed.len() implies valid(
                        tys,
                        #[trigger] pushed[k],
                    ) && !(tys[pushed[k].0 as int] is Union) && !(
                    tys[pushed[k].0 as int] is Never) by {
                        if k < result.len() {
                            assert(pushed[k] == result[k]);
                        }
                    }
                    assert forall|a: int, b: int| 0 <= a < b < pushed.len() implies pushed[a]
                        != pushed[b] by {
                        assert(pushed[a] == result[a]);
                        if b < result.len() {
                            assert(pushed[b] == result[b]);
                        }
                    }
                }
            }
            match tys[x.0 as int] {
                TypeModel::Never => {
                    lemma_union_members_from_flat(tys, ids, i + 1, result, bound);
                },
                TypeModel::Literal { kind, .. } => {
                    if result.contains(kind.spec_type_id()) {
                        lemma_union_members_from_flat(tys, ids, i + 1, result, bound);
                    } else {
                        lemma_union_members_from_flat(tys, ids, i + 1, pushed, bound);
                    }
                },
                TypeModel::Primitive { kind, .. } => {
                    lemma_drop_literals_flat(tys, result, kind);
                    lemma_drop_literals_subset(tys, result, kind);
                    let d = drop_literals(tys, result, kind);
                    let dp = d.push(x);
                    assert(!d.contains(x)) by {
                        if d.contains(x) {
                            let k = choose|k: int| 0 <= k < d.len() && d[k] == x;
                        }
                    }
                    assert forall|k: int| 0 <= k < dp.len() implies valid(tys, #[trigger] dp[k])
                        && !(tys[dp[k].0 as int] is Union) && !(tys[dp[k].0 as int] is Never) by {
                        if k < d.len() {
                            assert(dp[k] == d[k]);
                        }
                    }
                    assert forall|a: int, b: int| 0 <= a < b < dp.len() implies dp[a] != dp[b] by {
                        assert(dp[a] == d[a]);
                        if b < d.len() {
                            assert(dp[b] == d[b]);
                        }
                    }
                    lemma_union_members_from_flat(tys, ids, i + 1, dp, bound);
                },
                TypeModel::Union { types } => {
                    lemma_union_members_flat(tys, types, result, x.0 as nat);
                    lemma_union_members_from_flat(
                        tys,
                        ids,
                        i + 1,
                        union_members(tys, types, result, x.0 as nat),
                        bound,
                    );
                },
                TypeModel::Any => {},
                TypeModel::Unknown => {
                    assert(tys[2] == root_types()[2]);
                    let r = seq![TypeId(2)];
                    assert(r[0] == TypeId(2));
                },
                _ => {
                    lemma_union_members_from_flat(tys, ids, i + 1, pushed, bound);
                },
            }
        } else {
            if result.contains(x) {
                lemma_union_members_from_flat(tys, ids, i + 1, result, bound);
            }
        }
    }
}

/// The members of a normalized union occur once each, and none of them is
/// a union or `never`.
pub proof fn law_normalized_union_is_flat(tys: Seq<TypeModel>, ids: Seq<TypeId>, bound: nat)
    requires
        wf_types(tys),
    ensures
        flat_members(tys, union_members(tys, ids, seq![], bound)),
{
    lemma_union_members_flat(tys, ids, seq![], bound);
}

/// Reading a key after inserting it gives the inserted value; other keys
/// are unchanged.
#[verifier::spinoff_prover]
proof fn lemma_fields_insert_get(fields: Seq<(TypeId, TypeId)>, k: TypeId, v: TypeId, q: TypeId)
    ensures
        fields_get(fields_insert(fields, k, v), q) == if q == k {
            Some(v)
        } else {
            fields_get(fields, q)
        },
    decreases fields.len(),
{
    let r = fields_insert(fields, k, v);
    if fields.len() == 0 {
        assert(r =~= seq![(k, v)]);
        assert(r.drop_first() =~= Seq::<(TypeId, TypeId)>::empty());
        assert(fields_get(r.drop_first(), q) == None::<TypeId>);
        assert(fields_get(fields, q) == None::<TypeId>);
        assert(fields_get(r, q) == if q == k {
            Some(v)
        } else {
            fields_get(fields, q)
        });
    } else if fields[0].0 == k {
        assert(r =~= seq![(k, v)] + fields.drop_first());
        assert(r[0] == (k, v));
        assert(r.drop_first() =~= fields.drop_first());
        assert(fields_get(r, q) == if q == k {
            Some(v)
        } else {
            fields_get(fields, q)
        });
    } else if k.0 < fields[0].0.0 {
        assert(r =~= seq![(k, v)] + fields);
        assert(r[0] == (k, v));
        assert(r.drop_first() =~= fields);
        assert(fields_get(r, q) == if q == k {
            Some(v)
        } else {
            fields_get(fields, q)
        });
    } else {
        lemma_fields_insert_get(fields.drop_first(), k, v, q);
        let rest = fields_insert(fields.drop_first(), k, v);
        assert(r =~= seq![fields[0]] + rest);
        assert(r[0] == fields[0]);
        assert(r.drop_first() =~= rest);
        assert(fields_get(r, q) == if q == k {
            Some(v)
        } else {
            fields_get(fields, q)
        });
    }
}

/// In an interface built from pairs, a key given several times has the
/// value of its last pair.
pub proof fn law_iface_last_value_wins(
    pairs: Seq<(TypeId, TypeId)>,
    k: TypeId,
    v: TypeId,
    q: TypeId,
)
    ensures
        fields_get(fields_from(pairs.push((k, v))), q) == if q == k {
            Some(v)
        } else {
            fields_get(fields_from(pairs), q)
        },
{
    assert(pairs.push((k, v)).drop_last() =~= pairs);
    lemma_fields_insert_get(fields_from(pairs), k, v, q);
}

/// With the checker that tries interfaces first, every type is assignable
/// to the empty interface (as long as the types that normalizing the source
/// registers can all be numbered by a `usize`).
pub proof fn law_all_assignable_to_empty_iface(tys: Seq<TypeModel>, s: TypeId, t: TypeId)
    requires
        valid(tys, s),
        valid(tys, t),
        tys[t.0 as int] == (TypeModel::Iface { fields: seq![] }),
        normalized(tys, s).0.len() <= usize::MAX,
    ensures
        assignable(tys, s, t, false).1 == Ok::<(), CheckErr>(()),
{
    if s != t {
        let empty = TypeModel::Iface { fields: seq![] };
        let (a, sm) = normalized(tys, s);
        lemma_normalized(tys, s);
        assert(a[t.0 as int] == empty);
        assert(norm_fields(a, seq![], t.0 as nat) == (a, Seq::<(TypeId, TypeId)>::empty()));
        assert(fields_from(Seq::<(TypeId, TypeId)>::empty()) =~= Seq::<(TypeId, TypeId)>::empty());
        assert(0 <= t.0 < a.len() && a[t.0 as int] == empty);
        let i = find_type(a, empty).unwrap();
        assert(a[i] == empty);
        let (b, tm) = normalized(a, t);
        assert(b == a);
        assert(tm == empty);
    }
}

/// Identifier of the primitive type of the kind of `x`, when `x` is a
/// literal type.
pub open spec fn literal_kind_id(tys: Seq<TypeModel>, x: TypeId) -> Option<TypeId> {
    if valid(tys, x) {
        match tys[x.0 as int] {
            TypeModel::Literal { kind, .. } => Some(kind.spec_type_id()),
            _ => None,
        }
    } else {
        None
    }
}

/// No literal member is there together with the primitive type of its kind.
pub open spec fn literals_absorbed(tys: Seq<TypeModel>, r: Seq<TypeId>) -> bool {
    forall|i: int, j: int|
        #![trigger r[i], r[j]]
        0 <= i < r.len() && 0 <= j < r.len() ==> literal_kind_id(tys, r[i]) != Some(r[j])
}

/// The primitive type of a kind is not a literal type.
proof fn lemma_kind_id_primitive(tys: Seq<TypeModel>, k: PrimitiveKind)
    requires
        wf_types(tys),
    ensures
        valid(tys, k.spec_type_id()),
        tys[k.spec_type_id().0 as int] matches TypeModel::Primitive { kind, .. } && kind == k,
{
    assert(tys[3] == root_types()[3]);
    assert(tys[4] == root_types()[4]);
    assert(tys[5] == root_types()[5]);
    assert(tys[6] == root_types()[6]);
}

/// Dropping the literals of a kind leaves none of them.
proof fn lemma_drop_literals_none(tys: Seq<TypeModel>, r: Seq<TypeId>, kind: PrimitiveKind)
    ensures
        forall|i: int|
            0 <= i < drop_literals(tys, r, kind).len() ==> !is_literal_of(
                tys,
                #[trigger] drop_literals(tys, r, kind)[i],
                kind,
            ),
    decreases r.len(),
{
    if r.len() > 0 {
        lemma_drop_literals_none(tys, r.drop_last(), kind);
        let rest = drop_literals(tys, r.drop_last(), kind);
        let d = drop_literals(tys, r, kind);
        assert forall|i: int| 0 <= i < d.len() implies !is_literal_of(tys, #[trigger] d[i], kind) by {
            if i < rest.len() {
                assert(d[i] == rest[i]);
            }
        }
    }
}

/// Dropping literals keeps literals absorbed.
proof fn lemma_drop_literals_absorbed(tys: Seq<TypeModel>, r: Seq<TypeId>, kind: PrimitiveKind)
    requires
        literals_absorbed(tys, r),
    ensures
        literals_absorbed(tys, drop_literals(tys, r, kind)),
{
    lemma_drop_literals_subset(tys, r, kind);
    let d = drop_literals(tys, r, kind);
    assert forall|i: int, j: int| 0 <= i < d.len() && 0 <= j < d.len() implies literal_kind_id(
        tys,
        #[trigger] d[i],
    ) != Some(#[trigger] d[j]) by {
        assert(r.contains(d[i]));
        assert(r.contains(d[j]));
        let a = choose|a: int| 0 <= a < r.len() && r[a] == d[i];
        let b = choose|b: int| 0 <= b < r.len() && r[b] == d[j];
        assert(literal_kind_id(tys, r[a]) != Some(r[b]));
    }
}

/// [union_members] keeps literals absorbed.
proof fn lemma_union_members_absorbed(
    tys: Seq<TypeModel>,
    ids: Seq<TypeId>,
    result: Seq<TypeId>,
    bound: nat,
)
    requires
        wf_types(tys),
        literals_absorbed(tys, result),
    ensures
        literals_absorbed(tys, union_members(tys, ids, result, bound)),
    decreases bound, 1nat, 0nat,
{
    if ids.contains(TypeId(1)) {
        assert(tys[1] == root_types()[1]);
        let r = seq![TypeId(1)];
        assert forall|i: int, j: int| 0 <= i < r.len() && 0 <= j < r.len() implies literal_kind_id(
            tys,
            #[trigger] r[i],
        ) != Some(#[trigger] r[j]) by {
            assert(r[i] == TypeId(1));
        }
    } else {
        lemma_union_members_from_absorbed(tys, ids, 0, result, bound);
    }
}

/// [union_members_from] keeps literals absorbed.
proof fn lemma_union_members_from_absorbed(
    tys: Seq<TypeModel>,
    ids: Seq<TypeId>,
    i: nat,
    result: Seq<TypeId>,
    bound: nat,
)
    requires
        wf_types(tys),
        literals_absorbed(tys, result),
    ensures
        literals_absorbed(tys, union_members_from(tys, ids, i, result, bound)),
    decreases bound, 0nat, ids.len() - i,
{
    if i < ids.len() {
        let x = ids[i as int];
        if !result.contains(x) && x.0 < bound && x.0 < tys.len() {
            let pushed = result.push(x);
            match tys[x.0 as int] {
                TypeModel::Never => {
                    lemma_union_members_from_absorbed(tys, ids, i + 1, result, bound);
                },
                TypeModel::Literal { kind, .. } => {
                    if result.contains(kind.spec_type_id()) {
                        lemma_union_members_from_absorbed(tys, ids, i + 1, result, bound);
                    } else {
                        assert forall|a: int, b: int|
                            0 <= a < pushed.len() && 0 <= b < pushed.len() implies literal_kind_id(
                            tys,
                            #[trigger] pushed[a],
                        ) != Some(#[trigger] pushed[b]) by {
                            if a < result.len() && b < result.len() {
                                assert(pushed[a] == result[a] && pushed[b] == result[b]);
                            } else if a == result.len() {
                                lemma_kind_id_primitive(tys, kind);
                                if b < result.len() {
                                    assert(pushed[b] == result[b]);
                                }
                            } else {
                                assert(pushed[a] == result[a]);
                                if literal_kind_id(tys, result[a]) matches Some(p) {
                                    let k2 = match tys[result[a].0 as int] {
                                        TypeModel::Literal { kind, .. } => kind,
                                        _ => kind,
                                    };
                                    lemma_kind_id_primitive(tys, k2);
                                }
                            }
                        }
                        lemma_union_members_from_absorbed(tys, ids, i + 1, pushed, bound);
                    }
                },
                TypeModel::Primitive { kind, .. } => {
                    lemma_drop_literals_absorbed(tys, result, kind);
                    lemma_drop_literals_none(tys, result, kind);
                    let d = drop_literals(tys, result, kind);
                    let dp = d.push(x);
                    assert forall|a: int, b: int|
                        0 <= a < dp.len() && 0 <= b < dp.len() implies literal_kind_id(
                        tys,
                        #[trigger] dp[a],
                    ) != Some(#[trigger] dp[b]) by {
                        if a < d.len() && b < d.len() {
                            assert(dp[a] == d[a] && dp[b] == d[b]);
                        } else if a < d.len() {
                            assert(dp[a] == d[a]);
                            assert(!is_literal_of(tys, d[a], kind));
                            if literal_kind_id(tys, d[a]) matches Some(p) {
                                let k2 = match tys[d[a].0 as int] {
                                    TypeModel::Literal { kind, .. } => kind,
                                    _ => kind,
                                };
                                lemma_kind_id_primitive(tys, k2);
                            }
                        }
                    }
                    lemma_union_members_from_absorbed(tys, ids, i + 1, dp, bound);
                },
                TypeModel::Union { types } => {
                    lemma_union_members_absorbed(tys, types, result, x.0 as nat);
                    lemma_union_members_from_absorbed(
                        tys,
                        ids,
                        i + 1,
                        union_members(tys, types, result, x.0 as nat),
                        bound,
                    );
                },
                TypeModel::Any => {},
                TypeModel::Unknown => {
                    assert(tys[2] == root_types()[2]);
                    let r = seq![TypeId(2)];
                    assert forall|a: int, b: int| 0 <= a < r.len() && 0 <= b < r.len() implies literal_kind_id(
                        tys,
                        #[trigger] r[a],
                    ) != Some(#[trigger] r[b]) by {
                        assert(r[a] == TypeId(2));
                    }
                },
                _ => {
                    assert forall|a: int, b: int|
                        0 <= a < pushed.len() && 0 <= b < pushed.len() implies literal_kind_id(
                        tys,
                        #[trigger] pushed[a],
                    ) != Some(#[trigger] pushed[b]) by {
                        if a < result.len() && b < result.len() {
                            assert(pushed[a] == result[a] && pushed[b] == result[b]);
                        } else if a < result.len() {
                            assert(pushed[a] == result[a]);
                            if literal_kind_id(tys, result[a]) matches Some(p) {
                                let k2 = match tys[result[a].0 as int] {
                                    TypeModel::Literal { kind, .. } => kind,
                                    _ => PrimitiveKind::Nil,
                                };
                                lemma_kind_id_primitive(tys, k2);
                            }
                        }
                    }
                    lemma_union_members_from_absorbed(tys, ids, i + 1, pushed, bound);
                },
            }
        } else if result.contains(x) {
            lemma_union_members_from_absorbed(tys, ids, i + 1, result, bound);
        }
    }
}

/// A normalized union never holds a literal type together with the
/// primitive type of its kind: the primitive absorbs the literal.
pub proof fn law_normalized_union_absorbs_literals(
    tys: Seq<TypeModel>,
    ids: Seq<TypeId>,
    bound: nat,
)
    requires
        wf_types(tys),
    ensures
        literals_absorbed(tys, union_members(tys, ids, seq![], bound)),
{
    lemma_union_members_absorbed(tys, ids, seq![], bound);
}

/// The primitive kind of `x`, when `x` is a primitive type.
pub open spec fn primitive_kind_of(tys: Seq<TypeModel>, x: TypeId) -> Option<PrimitiveKind> {
    if valid(tys, x) {
        match tys[x.0 as int] {
            TypeModel::Primitive { kind, .. } => Some(kind),
            _ => None,
        }
    } else {
        None
    }
}

/// No literal member comes before a primitive type of its kind.
pub open spec fn literals_after_primitives(tys: Seq<TypeModel>, r: Seq<TypeId>) -> bool {
    forall|i: int, j: int|
        #![trigger r[i], r[j]]
        0 <= i < j < r.len() ==> match primitive_kind_of(tys, r[j]) {
            Some(k) => !is_literal_of(tys, r[i], k),
            None => true,
        }
}

/// Dropping literals keeps them after the primitive types of their kind.
proof fn lemma_drop_literals_ordered(tys: Seq<TypeModel>, r: Seq<TypeId>, kind: PrimitiveKind)
    requires
        literals_after_primitives(tys, r),
    ensures
        literals_after_primitives(tys, drop_literals(tys, r, kind)),
    decreases r.len(),
{
    if r.len() > 0 {
        let init = r.drop_last();
        assert(literals_after_primitives(tys, init)) by {
            assert forall|i: int, j: int| 0 <= i < j < init.len() implies match primitive_kind_of(
                tys,
                #[trigger] init[j],
            ) {
                Some(k) => !is_literal_of(tys, #[trigger] init[i], k),
                None => true,
            } by {
                assert(init[i] == r[i] && init[j] == r[j]);
            }
        }
        lemma_drop_literals_ordered(tys, init, kind);
        lemma_drop_literals_subset(tys, init, kind);
        let rest = drop_literals(tys, init, kind);
        let x = r.last();
        assert(r[r.len() - 1] == x);
        if !is_literal_of(tys, x, kind) {
            let d = rest.push(x);
            assert forall|i: int, j: int| 0 <= i < j < d.len() implies match primitive_kind_of(
                tys,
                #[trigger] d[j],
            ) {
                Some(k) => !is_literal_of(tys, #[trigger] d[i], k),
                None => true,
            } by {
                assert(d[i] == rest[i]);
                if j < rest.len() {
                    assert(d[j] == rest[j]);
                } else {
                    assert(init.contains(rest[i]));
                    let a = choose|a: int| 0 <= a < init.len() && init[a] == rest[i];
                    assert(r[a] == init[a]);
                    assert(d[j] == r[r.len() - 1]);
                }
            }
        }
    }
}

/// Dropping the literals of a kind from members that hold none changes
/// nothing.
proof fn lemma_drop_literals_unchanged(tys: Seq<TypeModel>, r: Seq<TypeId>, kind: PrimitiveKind)
    requires
        forall|i: int| 0 <= i < r.len() ==> !is_literal_of(tys, #[trigger] r[i], kind),
    ensures
        drop_literals(tys, r, kind) == r,
    decreases r.len(),
{
    if r.len() > 0 {
        let init = r.drop_last();
        assert forall|i: int| 0 <= i < init.len() implies !is_literal_of(tys, #[trigger] init[i], kind) by {
            assert(init[i] == r[i]);
        }
        lemma_drop_literals_unchanged(tys, init, kind);
        assert(r[r.len() - 1] == r.last());
        assert(init.push(r.last()) =~= r);
    }
}

/// [union_members] keeps literals after the primitive types of their kind.
proof fn lemma_union_members_ordered(
    tys: Seq<TypeModel>,
    ids: Seq<TypeId>,
    result: Seq<TypeId>,
    bound: nat,
)
    requires
        literals_after_primitives(tys, result),
    ensures
        literals_after_primitives(tys, union_members(tys, ids, result, bound)),
    decreases bound, 1nat, 0nat,
{
    if ids.contains(TypeId(1)) {
        let r = seq![TypeId(1)];
        assert forall|i: int, j: int| 0 <= i < j < r.len() implies match primitive_kind_of(
            tys,
            #[trigger] r[j],
        ) {
            Some(k) => !is_literal_of(tys, #[trigger] r[i], k),
            None => true,
        } by {}
    } else {
        lemma_union_members_from_ordered(tys, ids, 0, result, bound);
    }
}

/// [union_members_from] keeps literals after the primitive types of their
/// kind.
proof fn lemma_union_members_from_ordered(
    tys: Seq<TypeModel>,
    ids: Seq<TypeId>,
    i: nat,
    result: Seq<TypeId>,
    bound: nat,
)
    requires
        literals_after_primitives(tys, result),
    ensures
        literals_after_primitives(tys, union_members_from(tys, ids, i, result, bound)),
    decreases bound, 0nat, ids.len() - i,
{
    if i < ids.len() {
        let x = ids[i as int];
        if !result.contains(x) && x.0 < bound && x.0 < tys.len() {
            let pushed = result.push(x);
            match tys[x.0 as int] {
                TypeModel::Never => {
                    lemma_union_members_from_ordered(tys, ids, i + 1, result, bound);
                },
                TypeModel::Primitive { kind, .. } => {
                    lemma_drop_literals_ordered(tys, result, kind);
                    lemma_drop_literals_none(tys, result, kind);
                    let d = drop_literals(tys, result, kind);
                    let dp = d.push(x);
                    assert forall|a: int, b: int| 0 <= a < b < dp.len() implies match primitive_kind_of(
                        tys,
                        #[trigger] dp[b],
                    ) {
                        Some(k) => !is_literal_of(tys, #[trigger] dp[a], k),
                        None => true,
                    } by {
                        assert(dp[a] == d[a]);
                        if b < d.len() {
                            assert(dp[b] == d[b]);
                        }
                    }
                    lemma_union_members_from_ordered(tys, ids, i + 1, dp, bound);
                },
                TypeModel::Union { types } => {
                    lemma_union_members_ordered(tys, types, result, x.0 as nat);
                    lemma_union_members_from_ordered(
                        tys,
                        ids,
                        i + 1,
                        union_members(tys, types, result, x.0 as nat),
                        bound,
                    );
                },
                TypeModel::Any => {},
                TypeModel::Unknown => {
                    let r = seq![TypeId(2)];
                    assert forall|a: int, b: int| 0 <= a < b < r.len() implies match primitive_kind_of(
                        tys,
                        #[trigger] r[b],
                    ) {
                        Some(k) => !is_literal_of(tys, #[trigger] r[a], k),
                        None => true,
                    } by {}
                },
                TypeModel::Literal { kind, .. } => {
                    assert forall|a: int, b: int| 0 <= a < b < pushed.len() implies match primitive_kind_of(
                        tys,
                        #[trigger] pushed[b],
                    ) {
                        Some(k) => !is_literal_of(tys, #[trigger] pushed[a], k),
                        None => true,
                    } by {
                        assert(pushed[a] == result[a]);
                        if b < result.len() {
                            assert(pushed[b] == result[b]);
                        }
                    }
                    if result.contains(kind.spec_type_id()) {
                        lemma_union_members_from_ordered(tys, ids, i + 1, result, bound);
                    } else {
                        lemma_union_members_from_ordered(tys, ids, i + 1, pushed, bound);
                    }
                },
                _ => {
                    assert forall|a: int, b: int| 0 <= a < b < pushed.len() implies match primitive_kind_of(
                        tys,
                        #[trigger] pushed[b],
                    ) {
                        Some(k) => !is_literal_of(tys, #[trigger] pushed[a], k),
                        None => true,
                    } by {
                        assert(pushed[a] == result[a]);
                        if b < result.len() {
                            assert(pushed[b] == result[b]);
                        }
                    }
                    lemma_union_members_from_ordered(tys, ids, i + 1, pushed, bound);
                },
            }
        } else if result.contains(x) {
            lemma_union_members_from_ordered(tys, ids, i + 1, result, bound);
        }
    }
}

/// The type at `x` is `any` only at identifier 1 and `unknown` only at 2.
proof fn lemma_any_unknown_ids(tys: Seq<TypeModel>, x: TypeId)
    requires
        wf_types(tys),
        valid(tys, x),
    ensures
        tys[x.0 as int] is Any ==> x == TypeId(1),
        tys[x.0 as int] is Unknown ==> x == TypeId(2),
{
    assert(tys[1] == root_types()[1]);
    assert(tys[2] == root_types()[2]);
    if tys[x.0 as int] is Any && x.0 != 1 {
        assert(tys[x.0 as int] == tys[1]);
    }
    if tys[x.0 as int] is Unknown && x.0 != 2 {
        assert(tys[x.0 as int] == tys[2]);
    }
}

/// Normalizing flat members without `any` and `unknown`, whose literals are
/// absorbed and come after the primitive types of their kind, gives them
/// back, from position `i` on.
proof fn lemma_union_members_from_fixed(tys: Seq<TypeModel>, m: Seq<TypeId>, i: nat)
    requires
        wf_types(tys),
        flat_members(tys, m),
        literals_absorbed(tys, m),
        literals_after_primitives(tys, m),
        !m.contains(TypeId(1)),
        !m.contains(TypeId(2)),
        i <= m.len(),
    ensures
        union_members_from(tys, m, i, m.take(i as int), tys.len()) == m,
    decreases m.len() - i,
{
    if i == m.len() {
        assert(m.take(i as int) =~= m);
    } else {
        let x = m[i as int];
        let r = m.take(i as int);
        assert(!r.contains(x)) by {
            if r.contains(x) {
                let a = choose|a: int| 0 <= a < r.len() && r[a] == x;
                assert(r[a] == m[a]);
            }
        }
        assert(m.take((i + 1) as int) =~= r.push(x));
        assert(valid(tys, x) && !(tys[x.0 as int] is Union) && !(tys[x.0 as int] is Never));
        lemma_any_unknown_ids(tys, x);
        match tys[x.0 as int] {
            TypeModel::Literal { kind, .. } => {
                assert(!r.contains(kind.spec_type_id())) by {
                    if r.contains(kind.spec_type_id()) {
                        let a = choose|a: int| 0 <= a < r.len() && r[a] == kind.spec_type_id();
                        assert(r[a] == m[a]);
                        assert(literal_kind_id(tys, m[i as int]) != Some(m[a]));
                    }
                }
                lemma_union_members_from_fixed(tys, m, i + 1);
            },
            TypeModel::Primitive { kind, .. } => {
                assert forall|a: int| 0 <= a < r.len() implies !is_literal_of(
                    tys,
                    #[trigger] r[a],
                    kind,
                ) by {
                    assert(r[a] == m[a]);
                    assert(primitive_kind_of(tys, m[i as int]) == Some(kind));
                }
                lemma_drop_literals_unchanged(tys, r, kind);
                lemma_union_members_from_fixed(tys, m, i + 1);
            },
            TypeModel::Any => {
                assert(m.contains(TypeId(1)));
            },
            TypeModel::Unknown => {
                assert(m.contains(TypeId(2)));
            },
            TypeModel::Never => {},
            TypeModel::Union { .. } => {},
            _ => {
                lemma_union_members_from_fixed(tys, m, i + 1);
            },
        }
    }
}

/// Normalizing the members of a normalized union again gives them back,
/// unless they are two or more and one of them is `any` or `unknown` (a
/// nested union holding `any` or `unknown` leaves it as a member, and the
/// second normalization then reduces the union to it).
pub proof fn law_normalized_union_members_stable(tys: Seq<TypeModel>, ids: Seq<TypeId>, bound: nat)
    requires
        wf_types(tys),
        union_members(tys, ids, seq![], bound).len() <= 1 || (!union_members(
            tys,
            ids,
            seq![],
            bound,
        ).contains(TypeId(1)) && !union_members(tys, ids, seq![], bound).contains(TypeId(2))),
    ensures
        union_members(tys, union_members(tys, ids, seq![], bound), seq![], tys.len())
            == union_members(tys, ids, seq![], bound),
{
    let m = union_members(tys, ids, seq![], bound);
    lemma_union_members_flat(tys, ids, seq![], bound);
    lemma_union_members_absorbed(tys, ids, seq![], bound);
    lemma_union_members_ordered(tys, ids, seq![], bound);
    assert(tys[2] == root_types()[2]);
    if m.contains(TypeId(1)) {
        assert(m =~= seq![TypeId(1)]);
        assert(union_members(tys, m, seq![], tys.len()) =~= seq![TypeId(1)]);
    } else if m.contains(TypeId(2)) {
        assert(m =~= seq![TypeId(2)]);
        assert(!Seq::<TypeId>::empty().contains(TypeId(2)));
        assert(union_members_from(tys, m, 0, seq![], tys.len()) =~= seq![TypeId(2)]);
    } else {
        assert(m.take(0) =~= Seq::<TypeId>::empty());
        lemma_union_members_from_fixed(tys, m, 0);
    }
}

/// Normalizing a union gives `never` when no member is left, the member
/// itself when one is left, and otherwise the registered union of the two
/// or more members left.
pub proof fn law_normalized_union_shape(tys: Seq<TypeModel>, types: Seq<TypeId>, bound: nat)
    requires
        wf_types(tys),
        tys.len() < usize::MAX,
    ensures
        ({
            let (a, id) = norm_union(tys, types, bound);
            let ms = union_members(tys, types, seq![], bound);
            &&& valid(a, id)
            &&& ms.len() == 0 ==> id == TypeId(0)
            &&& ms.len() == 1 ==> id == ms[0] && !(a[id.0 as int] is Union)
            &&& ms.len() >= 2 ==> a[id.0 as int] == (TypeModel::Union { types: ms })
        }),
{
    let ms = union_members(tys, types, seq![], bound);
    lemma_union_members_flat(tys, types, seq![], bound);
    if ms.len() >= 2 {
        lemma_reg_at(tys, TypeModel::Union { types: ms });
    } else if ms.len() == 1 {
        assert(valid(tys, ms[0]));
    }
}

/// Every field of `any` has type `any`, and every field of `never` has type
/// `never`, whatever the field, without registering anything; in the root
/// types, these are the types named `any` and `never`. A field of an
/// interface has the type the interface gives its key.
pub proof fn law_fields_of_any_and_never(
    tys: Seq<TypeModel>,
    field: TypeId,
    bound: nat,
    legacy: bool,
)
    requires
        wf_types(tys),
    ensures
        field_type(tys, TypeModel::Any, field, bound, legacy) == (tys, Some(TypeId(1))),
        field_type(tys, TypeModel::Never, field, bound, legacy) == (tys, Some(TypeId(0))),
        forall|fields: Seq<(TypeId, TypeId)>|
            #[trigger] field_type(tys, TypeModel::Iface { fields }, field, bound, legacy) == (
                tys,
                fields_get(fields, field),
            ),
        tys[1] is Any,
        tys[0] is Never,
{
    assert(tys[0] == root_types()[0]);
    assert(tys[1] == root_types()[1]);
}

} // verus!
