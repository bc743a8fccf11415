//! Assignability of a source type to a target type in a root
//! [TypeEnvironment], with the reasons why an assignment is refused.
use vstd::prelude::*;

use crate::env::{refs_below, TypeEnvironment};
use crate::errors::{errs_model, CheckErr, IncompatibleTypeError, TypeCheckError};
use crate::height::{
    extends, height, ids_height, lemma_fields_height_ge, lemma_ids_height_ge,
    lemma_model_height_bound, lemma_model_height_ext, model_height,
};
use crate::normalize::{
    field_type, field_type_of, lookup_root, new_within, norm, normalize_type, root_ok, valid,
};
use crate::text::{type_string, type_text};
use crate::types::{FunctionType, IfaceType, Type, TypeId, TypeModel};

verus! {

/// Model of the result of an assignability check.
pub open spec fn res_model(r: Result<(), TypeCheckError>) -> Result<(), CheckErr> {
    match r {
        Ok(()) => Ok(()),
        Err(e) => Err(e@),
    }
}

/// Refusal to assign `s` to `t` for the given reasons.
pub open spec fn incompatible(s: TypeId, t: TypeId, reasons: Seq<CheckErr>) -> Result<
    (),
    CheckErr,
> {
    Err(CheckErr::Incompatible { source: s, target: t, reasons })
}

/// Success when `c` holds, otherwise a refusal without reasons.
pub open spec fn ok_if(c: bool, s: TypeId, t: TypeId) -> Result<(), CheckErr> {
    if c {
        Ok(())
    } else {
        incompatible(s, t, seq![])
    }
}

/// Type of valid `id` after normalization: the type of its normal form, or
/// its own type when it has none.
pub open spec fn normalized(tys: Seq<TypeModel>, id: TypeId) -> (Seq<TypeModel>, TypeModel) {
    let (a, o) = norm(tys, tys[id.0 as int], id.0 as nat);
    match o {
        Some(n) => (a, a[n.0 as int]),
        None => (a, tys[id.0 as int]),
    }
}

/// Bound on the depth of the checks made by [ca] for `s` and `t`: the sum of
/// their heights (a target that does not exist yet is counted as high as
/// the source, since only normalizing the source can create it).
pub open spec fn measure(tys: Seq<TypeModel>, s: TypeId, t: TypeId) -> nat {
    if valid(tys, s) {
        height(tys, s) + if valid(tys, t) {
            height(tys, t)
        } else {
            height(tys, s)
        }
    } else {
        0
    }
}

/// Whether `s` is assignable to `t`, with at most `fuel` nested checks
/// (enough when `fuel` exceeds [measure]): equal identifiers are; otherwise
/// both types are normalized and compared by [ca_models]. `legacy` selects
/// the variant of the checker that tries unions before interfaces.
pub open spec fn ca(tys: Seq<TypeModel>, s: TypeId, t: TypeId, legacy: bool, fuel: nat) -> (
    Seq<TypeModel>,
    Result<(), CheckErr>,
)
    decreases fuel, 0nat, 0nat,
{
    if fuel == 0 {
        (tys, Ok(()))
    } else if s == t {
        (tys, Ok(()))
    } else if !valid(tys, s) {
        (tys, Err(CheckErr::InvalidTypeId(s)))
    } else {
        let (a, sm) = normalized(tys, s);
        if !valid(a, t) {
            (a, Err(CheckErr::InvalidTypeId(t)))
        } else {
            let (b, tm) = normalized(a, t);
            ca_models(b, s, t, sm, tm, legacy, (fuel - 1) as nat)
        }
    }
}

/// Whether `s` is assignable to `t` in root types `tys`, with the types
/// that normalization registered along the way ([ca] with enough fuel).
pub open spec fn assignable(tys: Seq<TypeModel>, s: TypeId, t: TypeId, legacy: bool) -> (
    Seq<TypeModel>,
    Result<(), CheckErr>,
) {
    ca(tys, s, t, legacy, measure(tys, s, t) + 1)
}

/// Assignability of normalized source type `sm` (of `s`) to normalized
/// target type `tm` (of `t`): `never` is assignable to everything,
/// everything to `any` and `unknown`, `any` to everything but `never`;
/// literals to equal literals and to primitives of their kind, primitives
/// to primitives of their kind; functions, unions and interfaces by their
/// components.
pub open spec fn ca_models(
    tys: Seq<TypeModel>,
    s: TypeId,
    t: TypeId,
    sm: TypeModel,
    tm: TypeModel,
    legacy: bool,
    fuel: nat,
) -> (Seq<TypeModel>, Result<(), CheckErr>)
    decreases fuel, 3nat, 0nat,
{
    if sm == tm || sm is Never || tm is Any || tm is Unknown || (sm is Any && !(tm is Never)) {
        (tys, Ok(()))
    } else {
        match (sm, tm) {
            (TypeModel::Literal { value: v1, .. }, TypeModel::Literal { value: v2, .. }) => (
                tys,
                ok_if(v1 == v2, s, t),
            ),
            (TypeModel::Literal { kind: k1, .. }, TypeModel::Primitive { kind: k2, .. }) => (
                tys,
                ok_if(k1 == k2, s, t),
            ),
            (TypeModel::Primitive { kind: k1, .. }, TypeModel::Primitive { kind: k2, .. }) => (
                tys,
                ok_if(k1 == k2, s, t),
            ),
            (_, TypeModel::Iface { fields }) if !legacy => {
                let (a, rs) = ca_iface(tys, sm, tys.len(), fields, 0, seq![], legacy, fuel);
                (a, if rs.len() == 0 {
                    Ok(())
                } else {
                    incompatible(s, t, rs)
                })
            },
            (
                TypeModel::Function { params: sp, results: sr },
                TypeModel::Function { params: tp, results: tr },
            ) => ca_functions(tys, s, t, sp, sr, tp, tr, legacy, fuel),
            (_, TypeModel::Union { types }) => ca_union_target(
                tys,
                s,
                t,
                types,
                0,
                seq![],
                legacy,
                fuel,
            ),
            (TypeModel::Union { types }, _) => ca_union_source(
                tys,
                s,
                t,
                types,
                0,
                seq![],
                legacy,
                fuel,
            ),
            (_, TypeModel::Iface { fields }) => {
                let (a, rs) = ca_iface(tys, sm, tys.len(), fields, 0, seq![], legacy, fuel);
                (a, if rs.len() == 0 {
                    Ok(())
                } else {
                    incompatible(s, t, rs)
                })
            },
            _ => (tys, incompatible(s, t, seq![])),
        }
    }
}

/// Functions: target parameters must be assignable to source parameters
/// and source results to target results.
pub open spec fn ca_functions(
    tys: Seq<TypeModel>,
    s: TypeId,
    t: TypeId,
    sp: Seq<TypeId>,
    sr: Seq<TypeId>,
    tp: Seq<TypeId>,
    tr: Seq<TypeId>,
    legacy: bool,
    fuel: nat,
) -> (Seq<TypeModel>, Result<(), CheckErr>)
    decreases fuel, 2nat, 0nat,
{
    let (a, r1) = ca_tuple(tys, tp, sp, 0, legacy, fuel);
    let p = match r1 {
        Ok(()) => seq![],
        Err((i, e)) => seq![CheckErr::Parameter { nth: i, source: Box::new(e) }],
    };
    let (b, r2) = ca_tuple(a, sr, tr, 0, legacy, fuel);
    let q = match r2 {
        Ok(()) => seq![],
        Err((i, e)) => seq![CheckErr::Return { nth: i, source: Box::new(e) }],
    };
    (b, if p.len() + q.len() == 0 {
        Ok(())
    } else {
        incompatible(s, t, p + q)
    })
}

/// Entries `i..` of `trg` are assignable from the entries of `src` at the
/// same positions (`nil` where `src` has none); the first failure is
/// returned with its position.
pub open spec fn ca_tuple(
    tys: Seq<TypeModel>,
    src: Seq<TypeId>,
    trg: Seq<TypeId>,
    i: nat,
    legacy: bool,
    fuel: nat,
) -> (Seq<TypeModel>, Result<(), (usize, CheckErr)>)
    decreases fuel, 1nat, trg.len() - i,
{
    if i >= trg.len() {
        (tys, Ok(()))
    } else {
        let x = if i < src.len() {
            src[i as int]
        } else {
            TypeId(3)
        };
        let (a, r) = ca(tys, x, trg[i as int], legacy, fuel);
        match r {
            Ok(()) => ca_tuple(a, src, trg, i + 1, legacy, fuel),
            Err(e) => (a, Err((i as usize, e))),
        }
    }
}

/// `s` is assignable to one of the members `i..` of target union `t`; the
/// refusals of the members are collected after `reasons`.
pub open spec fn ca_union_target(
    tys: Seq<TypeModel>,
    s: TypeId,
    t: TypeId,
    types: Seq<TypeId>,
    i: nat,
    reasons: Seq<CheckErr>,
    legacy: bool,
    fuel: nat,
) -> (Seq<TypeModel>, Result<(), CheckErr>)
    decreases fuel, 1nat, types.len() - i,
{
    if i >= types.len() {
        (tys, incompatible(s, t, reasons))
    } else {
        let (a, r) = ca(tys, s, types[i as int], legacy, fuel);
        match r {
            Ok(()) => (a, Ok(())),
            Err(e) => ca_union_target(a, s, t, types, i + 1, reasons.push(e), legacy, fuel),
        }
    }
}

/// Every member `i..` of source union `s` is assignable to `t`; the
/// refusals of the members are collected after `reasons`, and the union is
/// refused with all of them when there is one.
pub open spec fn ca_union_source(
    tys: Seq<TypeModel>,
    s: TypeId,
    t: TypeId,
    types: Seq<TypeId>,
    i: nat,
    reasons: Seq<CheckErr>,
    legacy: bool,
    fuel: nat,
) -> (Seq<TypeModel>, Result<(), CheckErr>)
    decreases fuel, 1nat, types.len() - i,
{
    if i >= types.len() {
        (tys, if reasons.len() == 0 {
            Ok(())
        } else {
            incompatible(s, t, reasons)
        })
    } else {
        let (a, r) = ca(tys, types[i as int], t, legacy, fuel);
        match r {
            Ok(()) => ca_union_source(a, s, t, types, i + 1, reasons, legacy, fuel),
            Err(e) => ca_union_source(a, s, t, types, i + 1, reasons.push(e), legacy, fuel),
        }
    }
}

/// Reasons why the fields `i..` of a target interface are not provided by
/// normalized source type `sm` (whose components are below `bound`): a
/// field of the source whose type is not assignable, or a missing field
/// to which `nil` is not assignable.
pub open spec fn ca_iface(
    tys: Seq<TypeModel>,
    sm: TypeModel,
    bound: nat,
    fields: Seq<(TypeId, TypeId)>,
    i: nat,
    reasons: Seq<CheckErr>,
    legacy: bool,
    fuel: nat,
) -> (Seq<TypeModel>, Seq<CheckErr>)
    decreases fuel, 1nat, fields.len() - i,
{
    if i >= fields.len() {
        (tys, reasons)
    } else {
        let (f, ft) = fields[i as int];
        let (a, o) = field_type(tys, sm, f, bound, legacy);
        match o {
            Some(sf) => {
                let (b, r) = ca(a, sf, ft, legacy, fuel);
                match r {
                    Ok(()) => ca_iface(b, sm, bound, fields, i + 1, reasons, legacy, fuel),
                    Err(e) => ca_iface(
                        b,
                        sm,
                        bound,
                        fields,
                        i + 1,
                        reasons.push(
                            CheckErr::Field { name: type_text(b[f.0 as int]), source: Box::new(e) },
                        ),
                        legacy,
                        fuel,
                    ),
                }
            },
            None => {
                let (b, r) = ca(a, TypeId(3), ft, legacy, fuel);
                ca_iface(
                    b,
                    sm,
                    bound,
                    fields,
                    i + 1,
                    if r is Err {
                        reasons.push(CheckErr::Missing { name: f, ty: ft })
                    } else {
                        reasons
                    },
                    legacy,
                    fuel,
                )
            },
        }
    }
}

/// Model of the result of a tuple check.
pub open spec fn tuple_res_model(r: Result<(), (usize, TypeCheckError)>) -> Result<
    (),
    (usize, CheckErr),
> {
    match r {
        Ok(()) => Ok(()),
        Err((i, e)) => Err((i, e@)),
    }
}

/// Refusal to assign `s` to `t` for the given reasons.
fn refuse(s: TypeId, t: TypeId, reasons: Vec<TypeCheckError>) -> (e: TypeCheckError)
    ensures
        e@ == (CheckErr::Incompatible { source: s, target: t, reasons: errs_model(reasons@) }),
{
    TypeCheckError::IncompatibleType(
        IncompatibleTypeError { source_type: s, target_type: t, reasons },
    )
}

/// Appends an error to a list of reasons.
fn push_reason(reasons: &mut Vec<TypeCheckError>, e: TypeCheckError)
    ensures
        errs_model(final(reasons)@) == errs_model(old(reasons)@).push(e@),
{
    let ghost before = reasons@;
    reasons.push(e);
    assert(reasons@.drop_last() =~= before);
}

/// Whether `s` is assignable to `t` ([ca] with `fuel`).
#[verifier::spinoff_prover]
#[verifier::rlimit(80)]
pub(crate) fn can_assign_core(
    env: &mut TypeEnvironment,
    s: TypeId,
    t: TypeId,
    legacy: bool,
    Ghost(fuel): Ghost<nat>,
) -> (r: Result<(), TypeCheckError>)
    requires
        root_ok(*old(env)),
        fuel > measure(old(env).frame(), s, t),
    ensures
        root_ok(*final(env)),
        extends(final(env).frame(), old(env).frame()),
        (final(env).frame(), res_model(r)) == ca(old(env).frame(), s, t, legacy, fuel),
        s == TypeId(1) && valid(old(env).frame(), t) && !(old(env).frame()[t.0 as int] is Never)
            && !(old(env).frame()[t.0 as int] is Union) ==> r is Ok,
    decreases fuel, 0nat, 0nat,
{
    let ghost tys0 = env.frame();
    if s == t {
        return Ok(());
    }
    let src0 = match lookup_root(env, s) {
        Some(x) => x.duplicate(),
        None => {
            return Err(TypeCheckError::InvalidTypeId(s));
        },
    };
    let so = normalize_type(env, &src0, Ghost(s.0 as nat));
    let src = match so {
        Some(n) => lookup_root(env, n).unwrap().duplicate(),
        None => src0,
    };
    let ghost a = env.frame();
    let tgt0 = match lookup_root(env, t) {
        Some(x) => x.duplicate(),
        None => {
            return Err(TypeCheckError::InvalidTypeId(t));
        },
    };
    let to = normalize_type(env, &tgt0, Ghost(t.0 as nat));
    let tgt = match to {
        Some(n) => lookup_root(env, n).unwrap().duplicate(),
        None => tgt0,
    };
    let ghost b = env.frame();
    let ghost hs = height(tys0, s);
    let ghost ht = if valid(tys0, t) {
        height(tys0, t)
    } else {
        height(tys0, s)
    };
    proof {
        broadcast use crate::height::lemma_height_stable;

        assert(height(tys0, s) == model_height(tys0, tys0[s.0 as int], s.0 as nat));
        assert(height(a, t) <= ht);
        assert(height(a, t) == model_height(a, a[t.0 as int], t.0 as nat));
        match so {
            Some(n) => {
                lemma_model_height_bound(b, src@, n.0 as nat, b.len());
                lemma_model_height_ext(a, b, src@, n.0 as nat);
                assert(height(a, n) == model_height(a, a[n.0 as int], n.0 as nat));
            },
            None => {
                lemma_model_height_bound(b, src@, s.0 as nat, b.len());
                lemma_model_height_ext(tys0, b, src@, s.0 as nat);
            },
        }
        match to {
            Some(m) => {
                lemma_model_height_bound(b, tgt@, m.0 as nat, b.len());
                assert(height(b, m) == model_height(b, b[m.0 as int], m.0 as nat));
            },
            None => {
                lemma_model_height_bound(b, tgt@, t.0 as nat, b.len());
            },
        }
    }
    can_assign_models(env, s, t, &src, &tgt, legacy, Ghost((fuel - 1) as nat), Ghost(hs), Ghost(ht))
}

/// Assignability of normalized types ([ca_models]).
fn can_assign_models(
    env: &mut TypeEnvironment,
    s: TypeId,
    t: TypeId,
    src: &Type,
    tgt: &Type,
    legacy: bool,
    Ghost(fuel): Ghost<nat>,
    Ghost(hs): Ghost<nat>,
    Ghost(ht): Ghost<nat>,
) -> (r: Result<(), TypeCheckError>)
    requires
        root_ok(*old(env)),
        valid(old(env).frame(), s),
        height(old(env).frame(), s) <= hs,
        valid(old(env).frame(), t),
        height(old(env).frame(), t) <= ht,
        refs_below(src@, old(env).frame().len()),
        refs_below(tgt@, old(env).frame().len()),
        model_height(old(env).frame(), src@, old(env).frame().len()) <= hs,
        model_height(old(env).frame(), tgt@, old(env).frame().len()) <= ht,
        fuel >= hs + ht,
    ensures
        root_ok(*final(env)),
        extends(final(env).frame(), old(env).frame()),
        (final(env).frame(), res_model(r)) == ca_models(
            old(env).frame(),
            s,
            t,
            src@,
            tgt@,
            legacy,
            fuel,
        ),
        src@ is Any && !(tgt@ is Never) ==> r is Ok,
    decreases fuel, 3nat, 0nat,
{
    if src.same_as(tgt) {
        return Ok(());
    }
    let src_never = match src {
        Type::Never => true,
        _ => false,
    };
    let src_any = match src {
        Type::Any => true,
        _ => false,
    };
    let (tgt_never, tgt_any, tgt_unknown) = match tgt {
        Type::Never => (true, false, false),
        Type::Any => (false, true, false),
        Type::Unknown => (false, false, true),
        _ => (false, false, false),
    };
    if src_never || tgt_any || tgt_unknown || (src_any && !tgt_never) {
        return Ok(());
    }
    let empty: Vec<TypeCheckError> = Vec::new();
    match (src, tgt) {
        (Type::Literal { value: v1, .. }, Type::Literal { value: v2, .. }) => {
            if v1.eq(v2) {
                Ok(())
            } else {
                Err(refuse(s, t, empty))
            }
        },
        (Type::Literal { kind: k1, .. }, Type::Primitive { kind: k2, .. }) => {
            if *k1 == *k2 {
                Ok(())
            } else {
                Err(refuse(s, t, empty))
            }
        },
        (Type::Primitive { kind: k1, .. }, Type::Primitive { kind: k2, .. }) => {
            if *k1 == *k2 {
                Ok(())
            } else {
                Err(refuse(s, t, empty))
            }
        },
        (_, Type::Iface(i)) if !legacy => {
            let reasons = can_assign_iface(
                env,
                src,
                i,
                legacy,
                Ghost(fuel),
                Ghost(hs),
                Ghost(ht),
            );
            if reasons.len() == 0 {
                Ok(())
            } else {
                Err(refuse(s, t, reasons))
            }
        },
        (Type::Function(sf), Type::Function(tf)) => can_assign_functions(
            env,
            s,
            t,
            sf,
            tf,
            legacy,
            Ghost(fuel),
            Ghost(hs),
            Ghost(ht),
        ),
        (_, Type::Union(u)) => can_assign_union_target(
            env,
            s,
            t,
            &u.types,
            legacy,
            Ghost(fuel),
            Ghost(hs),
            Ghost(ht),
        ),
        (Type::Union(u), _) => can_assign_union_source(
            env,
            s,
            t,
            &u.types,
            legacy,
            Ghost(fuel),
            Ghost(hs),
            Ghost(ht),
        ),
        (_, Type::Iface(i)) => {
            let reasons = can_assign_iface(
                env,
                src,
                i,
                legacy,
                Ghost(fuel),
                Ghost(hs),
                Ghost(ht),
            );
            if reasons.len() == 0 {
                Ok(())
            } else {
                Err(refuse(s, t, reasons))
            }
        },
        _ => Err(refuse(s, t, empty)),
    }
}

/// Assignability of function types ([ca_functions]).
fn can_assign_functions(
    env: &mut TypeEnvironment,
    s: TypeId,
    t: TypeId,
    sf: &FunctionType,
    tf: &FunctionType,
    legacy: bool,
    Ghost(fuel): Ghost<nat>,
    Ghost(hs): Ghost<nat>,
    Ghost(ht): Ghost<nat>,
) -> (r: Result<(), TypeCheckError>)
    requires
        root_ok(*old(env)),
        refs_below(
            TypeModel::Function { params: sf.params@, results: sf.results@ },
            old(env).frame().len(),
        ),
        refs_below(
            TypeModel::Function { params: tf.params@, results: tf.results@ },
            old(env).frame().len(),
        ),
        model_height(
            old(env).frame(),
            TypeModel::Function { params: sf.params@, results: sf.results@ },
            old(env).frame().len(),
        ) <= hs,
        model_height(
            old(env).frame(),
            TypeModel::Function { params: tf.params@, results: tf.results@ },
            old(env).frame().len(),
        ) <= ht,
        fuel >= hs + ht,
    ensures
        root_ok(*final(env)),
        extends(final(env).frame(), old(env).frame()),
        (final(env).frame(), res_model(r)) == ca_functions(
            old(env).frame(),
            s,
            t,
            sf.params@,
            sf.results@,
            tf.params@,
            tf.results@,
            legacy,
            fuel,
        ),
    decreases fuel, 2nat, 0nat,
{
    let ghost tys0 = env.frame();
    let ghost n = tys0.len();
    proof {
        assert forall|j: int| 0 <= j < tf.params@.len() implies valid(
            tys0,
            #[trigger] tf.params@[j],
        ) && height(tys0, tf.params@[j]) <= (ht - 1) as nat by {
            lemma_ids_height_ge(tys0, tf.params@, n, j);
        }
        assert forall|j: int| 0 <= j < sf.params@.len() implies valid(
            tys0,
            #[trigger] sf.params@[j],
        ) && height(tys0, sf.params@[j]) <= (hs - 1) as nat by {
            lemma_ids_height_ge(tys0, sf.params@, n, j);
        }
        assert forall|j: int| 0 <= j < tf.results@.len() implies valid(
            tys0,
            #[trigger] tf.results@[j],
        ) && height(tys0, tf.results@[j]) <= (ht - 1) as nat by {
            lemma_ids_height_ge(tys0, tf.results@, n, j);
        }
        assert forall|j: int| 0 <= j < sf.results@.len() implies valid(
            tys0,
            #[trigger] sf.results@[j],
        ) && height(tys0, sf.results@[j]) <= (hs - 1) as nat by {
            lemma_ids_height_ge(tys0, sf.results@, n, j);
        }
    }
    let mut reasons: Vec<TypeCheckError> = Vec::new();
    let r1 = can_assign_tuple(
        env,
        &tf.params,
        &sf.params,
        legacy,
        Ghost(fuel),
        Ghost((ht - 1) as nat),
        Ghost((hs - 1) as nat),
    );
    let ghost a = env.frame();
    match r1 {
        Ok(()) => {},
        Err((i, e)) => {
            push_reason(
                &mut reasons,
                TypeCheckError::IncompatibleParameterType { nth: i, source: Box::new(e) },
            );
        },
    }
    let ghost p = errs_model(reasons@);
    proof {
        broadcast use crate::height::lemma_height_stable;

        assert forall|j: int| 0 <= j < sf.results@.len() implies valid(
            a,
            #[trigger] sf.results@[j],
        ) && height(a, sf.results@[j]) <= (hs - 1) as nat by {
            assert(height(a, sf.results@[j]) == height(tys0, sf.results@[j]));
        }
        assert forall|j: int| 0 <= j < tf.results@.len() implies valid(
            a,
            #[trigger] tf.results@[j],
        ) && height(a, tf.results@[j]) <= (ht - 1) as nat by {
            assert(height(a, tf.results@[j]) == height(tys0, tf.results@[j]));
        }
    }
    let r2 = can_assign_tuple(
        env,
        &sf.results,
        &tf.results,
        legacy,
        Ghost(fuel),
        Ghost((hs - 1) as nat),
        Ghost((ht - 1) as nat),
    );
    match r2 {
        Ok(()) => {},
        Err((i, e)) => {
            push_reason(
                &mut reasons,
                TypeCheckError::IncompatibleReturnType { nth: i, source: Box::new(e) },
            );
        },
    }
    proof {
        let q = match tuple_res_model(r2) {
            Ok(()) => Seq::<CheckErr>::empty(),
            Err((i, e)) => seq![CheckErr::Return { nth: i, source: Box::new(e) }],
        };
        assert(errs_model(reasons@) =~= p + q);
    }
    if reasons.len() == 0 {
        Ok(())
    } else {
        Err(refuse(s, t, reasons))
    }
}

/// Assignability of the entries of a tuple ([ca_tuple]).
#[verifier::loop_isolation(false)]
fn can_assign_tuple(
    env: &mut TypeEnvironment,
    src: &Vec<TypeId>,
    trg: &Vec<TypeId>,
    legacy: bool,
    Ghost(fuel): Ghost<nat>,
    Ghost(hs): Ghost<nat>,
    Ghost(ht): Ghost<nat>,
) -> (r: Result<(), (usize, TypeCheckError)>)
    requires
        root_ok(*old(env)),
        forall|j: int|
            0 <= j < src@.len() ==> valid(old(env).frame(), #[trigger] src@[j]) && height(
                old(env).frame(),
                src@[j],
            ) <= hs,
        forall|j: int|
            0 <= j < trg@.len() ==> valid(old(env).frame(), #[trigger] trg@[j]) && height(
                old(env).frame(),
                trg@[j],
            ) <= ht,
        fuel > hs + ht,
    ensures
        root_ok(*final(env)),
        extends(final(env).frame(), old(env).frame()),
        (final(env).frame(), tuple_res_model(r)) == ca_tuple(
            old(env).frame(),
            src@,
            trg@,
            0,
            legacy,
            fuel,
        ),
    decreases fuel, 1nat, 0nat,
{
    let ghost tys0 = env.frame();
    let mut i: usize = 0;
    while i < trg.len()
        invariant
            i <= trg.len(),
            root_ok(*env),
            extends(env.frame(), tys0),
            fuel > hs + ht,
            forall|j: int|
                0 <= j < src@.len() ==> valid(tys0, #[trigger] src@[j]) && height(tys0, src@[j])
                    <= hs,
            forall|j: int|
                0 <= j < trg@.len() ==> valid(tys0, #[trigger] trg@[j]) && height(tys0, trg@[j])
                    <= ht,
            ca_tuple(tys0, src@, trg@, 0, legacy, fuel) == ca_tuple(
                env.frame(),
                src@,
                trg@,
                i as nat,
                legacy,
                fuel,
            ),
        decreases trg.len() - i,
    {
        let x = if i < src.len() {
            src[i]
        } else {
            TypeId::NIL()
        };
        let y = trg[i];
        proof {
            broadcast use crate::height::lemma_height_stable;

            assert(height(env.frame(), y) == height(tys0, y));
            if i < src.len() {
                assert(height(env.frame(), x) == height(tys0, x));
            }
        }
        match can_assign_core(env, x, y, legacy, Ghost(fuel)) {
            Ok(()) => {},
            Err(e) => {
                return Err((i, e));
            },
        }
        i += 1;
    }
    Ok(())
}

/// Assignability to one of the members of a target union
/// ([ca_union_target]).
#[verifier::loop_isolation(false)]
fn can_assign_union_target(
    env: &mut TypeEnvironment,
    s: TypeId,
    t: TypeId,
    types: &Vec<TypeId>,
    legacy: bool,
    Ghost(fuel): Ghost<nat>,
    Ghost(hs): Ghost<nat>,
    Ghost(ht): Ghost<nat>,
) -> (r: Result<(), TypeCheckError>)
    requires
        root_ok(*old(env)),
        valid(old(env).frame(), s),
        height(old(env).frame(), s) <= hs,
        refs_below(TypeModel::Union { types: types@ }, old(env).frame().len()),
        model_height(old(env).frame(), TypeModel::Union { types: types@ }, old(env).frame().len())
            <= ht,
        fuel >= hs + ht,
    ensures
        root_ok(*final(env)),
        extends(final(env).frame(), old(env).frame()),
        (final(env).frame(), res_model(r)) == ca_union_target(
            old(env).frame(),
            s,
            t,
            types@,
            0,
            seq![],
            legacy,
            fuel,
        ),
    decreases fuel, 1nat, 0nat,
{
    let ghost tys0 = env.frame();
    let ghost n = tys0.len();
    let mut reasons: Vec<TypeCheckError> = Vec::new();
    let mut i: usize = 0;
    while i < types.len()
        invariant
            i <= types.len(),
            root_ok(*env),
            extends(env.frame(), tys0),
            valid(tys0, s),
            height(tys0, s) <= hs,
            n == tys0.len(),
            refs_below(TypeModel::Union { types: types@ }, n),
            model_height(tys0, TypeModel::Union { types: types@ }, n) <= ht,
            fuel >= hs + ht,
            ca_union_target(tys0, s, t, types@, 0, seq![], legacy, fuel) == ca_union_target(
                env.frame(),
                s,
                t,
                types@,
                i as nat,
                errs_model(reasons@),
                legacy,
                fuel,
            ),
        decreases types.len() - i,
    {
        let m = types[i];
        proof {
            broadcast use crate::height::lemma_height_stable;

            lemma_ids_height_ge(tys0, types@, n, i as int);
            assert(height(env.frame(), m) == height(tys0, m));
            assert(height(env.frame(), s) == height(tys0, s));
        }
        match can_assign_core(env, s, m, legacy, Ghost(fuel)) {
            Ok(()) => {
                return Ok(());
            },
            Err(e) => {
                push_reason(&mut reasons, e);
            },
        }
        i += 1;
    }
    Err(refuse(s, t, reasons))
}

/// Assignability of every member of a source union ([ca_union_source]).
#[verifier::loop_isolation(false)]
fn can_assign_union_source(
    env: &mut TypeEnvironment,
    s: TypeId,
    t: TypeId,
    types: &Vec<TypeId>,
    legacy: bool,
    Ghost(fuel): Ghost<nat>,
    Ghost(hs): Ghost<nat>,
    Ghost(ht): Ghost<nat>,
) -> (r: Result<(), TypeCheckError>)
    requires
        root_ok(*old(env)),
        valid(old(env).frame(), t),
        height(old(env).frame(), t) <= ht,
        refs_below(TypeModel::Union { types: types@ }, old(env).frame().len()),
        model_height(old(env).frame(), TypeModel::Union { types: types@ }, old(env).frame().len())
            <= hs,
        fuel >= hs + ht,
    ensures
        root_ok(*final(env)),
        extends(final(env).frame(), old(env).frame()),
        (final(env).frame(), res_model(r)) == ca_union_source(
            old(env).frame(),
            s,
            t,
            types@,
            0,
            seq![],
            legacy,
            fuel,
        ),
    decreases fuel, 1nat, 0nat,
{
    let ghost tys0 = env.frame();
    let ghost n = tys0.len();
    let mut reasons: Vec<TypeCheckError> = Vec::new();
    let mut i: usize = 0;
    while i < types.len()
        invariant
            i <= types.len(),
            root_ok(*env),
            extends(env.frame(), tys0),
            valid(tys0, t),
            height(tys0, t) <= ht,
            n == tys0.len(),
            refs_below(TypeModel::Union { types: types@ }, n),
            model_height(tys0, TypeModel::Union { types: types@ }, n) <= hs,
            fuel >= hs + ht,
            ca_union_source(tys0, s, t, types@, 0, seq![], legacy, fuel) == ca_union_source(
                env.frame(),
                s,
                t,
                types@,
                i as nat,
                errs_model(reasons@),
                legacy,
                fuel,
            ),
        decreases types.len() - i,
    {
        let m = types[i];
        proof {
            broadcast use crate::height::lemma_height_stable;

            lemma_ids_height_ge(tys0, types@, n, i as int);
            assert(height(env.frame(), m) == height(tys0, m));
            assert(height(env.frame(), t) == height(tys0, t));
        }
        match can_assign_core(env, m, t, legacy, Ghost(fuel)) {
            Ok(()) => {},
            Err(e) => {
                push_reason(&mut reasons, e);
            },
        }
        i += 1;
    }
    if reasons.len() == 0 {
        Ok(())
    } else {
        Err(refuse(s, t, reasons))
    }
}

/// Reasons why the fields of a target interface are not provided by a
/// normalized source type ([ca_iface]).
#[verifier::spinoff_prover]
#[verifier::rlimit(40)]
fn can_assign_iface(
    env: &mut TypeEnvironment,
    src: &Type,
    target: &IfaceType,
    legacy: bool,
    Ghost(fuel): Ghost<nat>,
    Ghost(hs): Ghost<nat>,
    Ghost(ht): Ghost<nat>,
) -> (r: Vec<TypeCheckError>)
    requires
        root_ok(*old(env)),
        refs_below(src@, old(env).frame().len()),
        model_height(old(env).frame(), src@, old(env).frame().len()) <= hs,
        refs_below(TypeModel::Iface { fields: target@ }, old(env).frame().len()),
        model_height(old(env).frame(), TypeModel::Iface { fields: target@ }, old(env).frame().len())
            <= ht,
        fuel >= hs + ht,
    ensures
        root_ok(*final(env)),
        extends(final(env).frame(), old(env).frame()),
        (final(env).frame(), errs_model(r@)) == ca_iface(
            old(env).frame(),
            src@,
            old(env).frame().len(),
            target@,
            0,
            seq![],
            legacy,
            fuel,
        ),
    decreases fuel, 1nat, 0nat,
{
    let ghost tys0 = env.frame();
    let ghost n = tys0.len();
    let fields = target.fields();
    let mut reasons: Vec<TypeCheckError> = Vec::new();
    let mut i: usize = 0;
    while i < fields.len()
        invariant
            i <= fields.len(),
            fields@ == target@,
            root_ok(*env),
            extends(env.frame(), tys0),
            n == tys0.len(),
            refs_below(src@, n),
            model_height(tys0, src@, n) <= hs,
            refs_below(TypeModel::Iface { fields: target@ }, n),
            model_height(tys0, TypeModel::Iface { fields: target@ }, n) <= ht,
            fuel >= hs + ht,
            ca_iface(tys0, src@, n, target@, 0, seq![], legacy, fuel) == ca_iface(
                env.frame(),
                src@,
                n,
                target@,
                i as nat,
                errs_model(reasons@),
                legacy,
                fuel,
            ),
        decreases fields.len() - i,
    {
        let (f, ft) = fields[i];
        assert(target@[i as int] == (f, ft));
        let ghost cur = env.frame();
        proof {
            lemma_fields_height_ge(tys0, target@, n, i as int);
            lemma_model_height_ext(tys0, cur, src@, n);
        }
        let o = field_type_of(env, src, f, Ghost(n), legacy);
        proof {
            broadcast use crate::height::lemma_height_stable;

            assert(height(env.frame(), ft) == height(tys0, ft));
        }
        match o {
            Some(sf) => {
                match can_assign_core(env, sf, ft, legacy, Ghost(fuel)) {
                    Ok(()) => {},
                    Err(e) => {
                        let name = type_string(lookup_root(env, f).unwrap());
                        push_reason(
                            &mut reasons,
                            TypeCheckError::IncompatibleFieldType {
                                field_name: name,
                                source: Box::new(e),
                            },
                        );
                    },
                }
            },
            None => {
                let r = can_assign_core(env, TypeId::NIL(), ft, legacy, Ghost(fuel));
                if r.is_err() {
                    push_reason(
                        &mut reasons,
                        TypeCheckError::RequiredFieldMissing { field_name: f, field_type: ft },
                    );
                }
            },
        }
        i += 1;
    }
    reasons
}

} // verus!
