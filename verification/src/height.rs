//! Height of types: how deeply a type nests other types. Types only refer to
//! types registered before them, so every type has a finite height, and a
//! type's components are lower than the type itself.
use vstd::prelude::*;

use crate::env::refs_below;
use crate::types::{fields_get, TypeId, TypeModel};

verus! {

/// Greater of two natural numbers.
pub open spec fn max_nat(a: nat, b: nat) -> nat {
    if a < b {
        b
    } else {
        a
    }
}

/// `big` starts with the types of `small`.
pub open spec fn extends(big: Seq<TypeModel>, small: Seq<TypeModel>) -> bool {
    &&& small.len() <= big.len()
    &&& forall|i: int| 0 <= i < small.len() ==> #[trigger] big[i] == small[i]
}

/// Height of the type of `id`: 0 for types without components, one more
/// than the highest component otherwise.
pub open spec fn height(tys: Seq<TypeModel>, id: TypeId) -> nat
    decreases id.0 + 1, 0nat, 0nat,
{
    if id.0 < tys.len() {
        model_height(tys, tys[id.0 as int], id.0 as nat)
    } else {
        0
    }
}

/// Height of a type whose components are below `bound`.
pub open spec fn model_height(tys: Seq<TypeModel>, t: TypeModel, bound: nat) -> nat
    decreases bound, 1nat, 0nat,
{
    match t {
        TypeModel::Function { params, results } => 1 + max_nat(
            ids_height(tys, params, bound),
            ids_height(tys, results, bound),
        ),
        TypeModel::Require { params, results } => 1 + max_nat(
            ids_height(tys, params, bound),
            ids_height(tys, results, bound),
        ),
        TypeModel::Union { types } => 1 + ids_height(tys, types, bound),
        TypeModel::Iface { fields } => 1 + fields_height(tys, fields, bound),
        TypeModel::Global { fields } => 1 + fields_height(tys, fields, bound),
        _ => 0,
    }
}

/// Greatest height of the identifiers of `ids` below `bound`.
pub open spec fn ids_height(tys: Seq<TypeModel>, ids: Seq<TypeId>, bound: nat) -> nat
    decreases bound, 0nat, ids.len(),
{
    if ids.len() == 0 {
        0
    } else {
        let x = ids.last();
        let hx = if x.0 < bound {
            height(tys, x)
        } else {
            0
        };
        max_nat(ids_height(tys, ids.drop_last(), bound), hx)
    }
}

/// Greatest height of the keys and values of `fields` below `bound`.
pub open spec fn fields_height(tys: Seq<TypeModel>, fields: Seq<(TypeId, TypeId)>, bound: nat) -> nat
    decreases bound, 0nat, fields.len(),
{
    if fields.len() == 0 {
        0
    } else {
        let (k, v) = fields.last();
        let hk = if k.0 < bound {
            height(tys, k)
        } else {
            0
        };
        let hv = if v.0 < bound {
            height(tys, v)
        } else {
            0
        };
        max_nat(fields_height(tys, fields.drop_last(), bound), max_nat(hk, hv))
    }
}

/// Heights of the types of `a` do not change when types are appended.
pub proof fn lemma_height_ext(a: Seq<TypeModel>, b: Seq<TypeModel>, x: TypeId)
    requires
        extends(b, a),
        x.0 < a.len(),
    ensures
        height(b, x) == height(a, x),
    decreases x.0 + 1, 0nat, 0nat,
{
    assert(b[x.0 as int] == a[x.0 as int]);
    lemma_model_height_ext(a, b, a[x.0 as int], x.0 as nat);
}

/// [lemma_height_ext] for a type whose components are below `bound`.
pub proof fn lemma_model_height_ext(a: Seq<TypeModel>, b: Seq<TypeModel>, t: TypeModel, bound: nat)
    requires
        extends(b, a),
        bound <= a.len(),
    ensures
        model_height(b, t, bound) == model_height(a, t, bound),
    decreases bound, 1nat, 0nat,
{
    match t {
        TypeModel::Function { params, results } => {
            lemma_ids_height_ext(a, b, params, bound);
            lemma_ids_height_ext(a, b, results, bound);
        },
        TypeModel::Require { params, results } => {
            lemma_ids_height_ext(a, b, params, bound);
            lemma_ids_height_ext(a, b, results, bound);
        },
        TypeModel::Union { types } => {
            lemma_ids_height_ext(a, b, types, bound);
        },
        TypeModel::Iface { fields } => {
            lemma_fields_height_ext(a, b, fields, bound);
        },
        TypeModel::Global { fields } => {
            lemma_fields_height_ext(a, b, fields, bound);
        },
        _ => {},
    }
}

/// [lemma_height_ext] for a sequence of identifiers.
pub proof fn lemma_ids_height_ext(a: Seq<TypeModel>, b: Seq<TypeModel>, ids: Seq<TypeId>, bound: nat)
    requires
        extends(b, a),
        bound <= a.len(),
    ensures
        ids_height(b, ids, bound) == ids_height(a, ids, bound),
    decreases bound, 0nat, ids.len(),
{
    if ids.len() > 0 {
        lemma_ids_height_ext(a, b, ids.drop_last(), bound);
        let x = ids.last();
        if x.0 < bound {
            lemma_height_ext(a, b, x);
        }
    }
}

/// [lemma_height_ext] for a sequence of fields.
pub proof fn lemma_fields_height_ext(
    a: Seq<TypeModel>,
    b: Seq<TypeModel>,
    fields: Seq<(TypeId, TypeId)>,
    bound: nat,
)
    requires
        extends(b, a),
        bound <= a.len(),
    ensures
        fields_height(b, fields, bound) == fields_height(a, fields, bound),
    decreases bound, 0nat, fields.len(),
{
    if fields.len() > 0 {
        lemma_fields_height_ext(a, b, fields.drop_last(), bound);
        let (k, v) = fields.last();
        if k.0 < bound {
            lemma_height_ext(a, b, k);
        }
        if v.0 < bound {
            lemma_height_ext(a, b, v);
        }
    }
}

/// The bound does not matter when every identifier is below it.
pub proof fn lemma_ids_height_bound(tys: Seq<TypeModel>, ids: Seq<TypeId>, b1: nat, b2: nat)
    requires
        forall|i: int| 0 <= i < ids.len() ==> (#[trigger] ids[i]).0 < b1 && ids[i].0 < b2,
    ensures
        ids_height(tys, ids, b1) == ids_height(tys, ids, b2),
    decreases ids.len(),
{
    if ids.len() > 0 {
        assert(ids[ids.len() - 1] == ids.last());
        lemma_ids_height_bound(tys, ids.drop_last(), b1, b2);
    }
}

/// The bound does not matter when every key and value is below it.
pub proof fn lemma_fields_height_bound(
    tys: Seq<TypeModel>,
    fields: Seq<(TypeId, TypeId)>,
    b1: nat,
    b2: nat,
)
    requires
        forall|i: int|
            0 <= i < fields.len() ==> (#[trigger] fields[i]).0.0 < b1 && fields[i].0.0 < b2
                && fields[i].1.0 < b1 && fields[i].1.0 < b2,
    ensures
        fields_height(tys, fields, b1) == fields_height(tys, fields, b2),
    decreases fields.len(),
{
    if fields.len() > 0 {
        assert(fields[fields.len() - 1] == fields.last());
        lemma_fields_height_bound(tys, fields.drop_last(), b1, b2);
    }
}

/// A member below the bound is no higher than the sequence's height.
pub proof fn lemma_ids_height_ge(tys: Seq<TypeModel>, ids: Seq<TypeId>, bound: nat, j: int)
    requires
        0 <= j < ids.len(),
        ids[j].0 < bound,
    ensures
        height(tys, ids[j]) <= ids_height(tys, ids, bound),
    decreases ids.len(),
{
    if j < ids.len() - 1 {
        assert(ids.drop_last()[j] == ids[j]);
        lemma_ids_height_ge(tys, ids.drop_last(), bound, j);
    }
}

/// A sequence whose members below the bound are at most `k` high has height
/// at most `k`.
pub proof fn lemma_ids_height_le(tys: Seq<TypeModel>, ids: Seq<TypeId>, bound: nat, k: nat)
    requires
        forall|j: int| 0 <= j < ids.len() && ids[j].0 < bound ==> height(tys, #[trigger] ids[j]) <= k,
    ensures
        ids_height(tys, ids, bound) <= k,
    decreases ids.len(),
{
    if ids.len() > 0 {
        assert(ids[ids.len() - 1] == ids.last());
        assert forall|j: int|
            0 <= j < ids.drop_last().len() && ids.drop_last()[j].0 < bound implies height(
            tys,
            #[trigger] ids.drop_last()[j],
        ) <= k by {
            assert(ids.drop_last()[j] == ids[j]);
        }
        lemma_ids_height_le(tys, ids.drop_last(), bound, k);
    }
}

/// A key or value below the bound is no higher than the fields' height.
pub proof fn lemma_fields_height_ge(
    tys: Seq<TypeModel>,
    fields: Seq<(TypeId, TypeId)>,
    bound: nat,
    j: int,
)
    requires
        0 <= j < fields.len(),
    ensures
        fields[j].0.0 < bound ==> height(tys, fields[j].0) <= fields_height(tys, fields, bound),
        fields[j].1.0 < bound ==> height(tys, fields[j].1) <= fields_height(tys, fields, bound),
    decreases fields.len(),
{
    if j < fields.len() - 1 {
        assert(fields.drop_last()[j] == fields[j]);
        lemma_fields_height_ge(tys, fields.drop_last(), bound, j);
    }
}

/// Fields whose keys and values below the bound are at most `k` high have
/// height at most `k`.
pub proof fn lemma_fields_height_le(
    tys: Seq<TypeModel>,
    fields: Seq<(TypeId, TypeId)>,
    bound: nat,
    k: nat,
)
    requires
        forall|j: int|
            0 <= j < fields.len() ==> (fields[j].0.0 < bound ==> height(
                tys,
                (#[trigger] fields[j]).0,
            ) <= k) && (fields[j].1.0 < bound ==> height(tys, fields[j].1) <= k),
    ensures
        fields_height(tys, fields, bound) <= k,
    decreases fields.len(),
{
    if fields.len() > 0 {
        assert(fields[fields.len() - 1] == fields.last());
        assert forall|j: int| 0 <= j < fields.drop_last().len() implies (
        fields.drop_last()[j].0.0 < bound ==> height(tys, (#[trigger] fields.drop_last()[j]).0)
            <= k) && (fields.drop_last()[j].1.0 < bound ==> height(
            tys,
            fields.drop_last()[j].1,
        ) <= k) by {
            assert(fields.drop_last()[j] == fields[j]);
        }
        lemma_fields_height_le(tys, fields.drop_last(), bound, k);
    }
}

/// The value found for a key is one of the fields' values.
pub proof fn lemma_fields_get_index(fields: Seq<(TypeId, TypeId)>, k: TypeId)
    requires
        fields_get(fields, k) is Some,
    ensures
        exists|j: int|
            0 <= j < fields.len() && #[trigger] fields[j] == (k, fields_get(fields, k).unwrap()),
    decreases fields.len(),
{
    if fields[0].0 != k {
        lemma_fields_get_index(fields.drop_first(), k);
        let j = choose|j: int|
            0 <= j < fields.drop_first().len() && #[trigger] fields.drop_first()[j] == (
                k,
                fields_get(fields.drop_first(), k).unwrap(),
            );
        assert(fields[j + 1] == fields.drop_first()[j]);
    } else {
        assert(fields[0] == (k, fields_get(fields, k).unwrap()));
    }
}

/// Heights of the types of `a` are the same in every extension `b` of `a`.
pub broadcast proof fn lemma_height_stable(a: Seq<TypeModel>, b: Seq<TypeModel>, x: TypeId)
    ensures
        #[trigger] extends(b, a) && x.0 < a.len() ==> #[trigger] height(b, x) == height(a, x),
{
    if extends(b, a) && x.0 < a.len() {
        lemma_height_ext(a, b, x);
    }
}

/// The bound does not matter when every component of `t` is below it.
pub proof fn lemma_model_height_bound(tys: Seq<TypeModel>, t: TypeModel, b1: nat, b2: nat)
    requires
        refs_below(t, b1),
        refs_below(t, b2),
    ensures
        model_height(tys, t, b1) == model_height(tys, t, b2),
{
    match t {
        TypeModel::Function { params, results } => {
            lemma_ids_height_bound(tys, params, b1, b2);
            lemma_ids_height_bound(tys, results, b1, b2);
        },
        TypeModel::Require { params, results } => {
            lemma_ids_height_bound(tys, params, b1, b2);
            lemma_ids_height_bound(tys, results, b1, b2);
        },
        TypeModel::Union { types } => {
            lemma_ids_height_bound(tys, types, b1, b2);
        },
        TypeModel::Iface { fields } => {
            lemma_fields_height_bound(tys, fields, b1, b2);
        },
        TypeModel::Global { fields } => {
            lemma_fields_height_bound(tys, fields, b1, b2);
        },
        _ => {},
    }
}

} // verus!
