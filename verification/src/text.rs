//! Textual form of types, as the type checker shows them in messages.
use vstd::prelude::*;

use crate::types::{PrimitiveKind, Type, TypeId, TypeModel};

verus! {

/// Decimal digit `d` (below 10) as a character.
pub open spec fn digit_char(d: nat) -> char {
    if d == 0 {
        '0'
    } else if d == 1 {
        '1'
    } else if d == 2 {
        '2'
    } else if d == 3 {
        '3'
    } else if d == 4 {
        '4'
    } else if d == 5 {
        '5'
    } else if d == 6 {
        '6'
    } else if d == 7 {
        '7'
    } else if d == 8 {
        '8'
    } else {
        '9'
    }
}

/// Decimal writing of `n`, without leading zeros.
pub open spec fn decimal(n: nat) -> Seq<char>
    decreases n,
{
    if n < 10 {
        seq![digit_char(n)]
    } else {
        decimal(n / 10).push(digit_char(n % 10))
    }
}

/// Text of an identifier: the builtin types by name, others as
/// `TypeId(n)`.
pub open spec fn id_text(id: TypeId) -> Seq<char> {
    if id.0 == 0 {
        "never"@
    } else if id.0 == 1 {
        "any"@
    } else if id.0 == 2 {
        "unknown"@
    } else if id.0 == 3 {
        "nil"@
    } else if id.0 == 4 {
        "boolean"@
    } else if id.0 == 5 {
        "number"@
    } else if id.0 == 6 {
        "string"@
    } else {
        "TypeId("@ + decimal(id.0 as nat) + ")"@
    }
}

/// Name of a primitive kind.
pub open spec fn kind_text(kind: PrimitiveKind) -> Seq<char> {
    match kind {
        PrimitiveKind::Nil => "nil"@,
        PrimitiveKind::Boolean => "boolean"@,
        PrimitiveKind::Number => "number"@,
        PrimitiveKind::String => "string"@,
    }
}

/// Texts of `ids` separated by `sep`.
pub open spec fn join_ids(ids: Seq<TypeId>, sep: Seq<char>) -> Seq<char>
    decreases ids.len(),
{
    if ids.len() == 0 {
        seq![]
    } else if ids.len() == 1 {
        id_text(ids[0])
    } else {
        join_ids(ids.drop_last(), sep) + sep + id_text(ids.last())
    }
}

/// Texts ` k: v;` of the fields, one after the other.
pub open spec fn fields_text(fields: Seq<(TypeId, TypeId)>) -> Seq<char>
    decreases fields.len(),
{
    if fields.len() == 0 {
        seq![]
    } else {
        fields_text(fields.drop_last()) + " "@ + id_text(fields.last().0) + ": "@ + id_text(
            fields.last().1,
        ) + ";"@
    }
}

/// Text of a function type: `(params) -> (results)`.
pub open spec fn function_text(params: Seq<TypeId>, results: Seq<TypeId>) -> Seq<char> {
    "("@ + join_ids(params, ", "@) + ") -> ("@ + join_ids(results, ", "@) + ")"@
}

/// Text of an interface type: `{ k: v; ... }`.
pub open spec fn iface_text(fields: Seq<(TypeId, TypeId)>) -> Seq<char> {
    "{"@ + fields_text(fields) + " }"@
}

/// Text of a type: literals by their value, primitives by their kind and
/// composite types by the texts of their components.
pub open spec fn type_text(t: TypeModel) -> Seq<char> {
    match t {
        TypeModel::Never => "never"@,
        TypeModel::Any => "any"@,
        TypeModel::Unknown => "unknown"@,
        TypeModel::Literal { value, .. } => value,
        TypeModel::Primitive { kind, .. } => kind_text(kind),
        TypeModel::Function { params, results } => function_text(params, results),
        TypeModel::Require { params, results } => function_text(params, results),
        TypeModel::Union { types } => if types.len() == 0 {
            "<empty union>"@
        } else {
            join_ids(types, " | "@)
        },
        TypeModel::Iface { fields } => iface_text(fields),
        TypeModel::Global { fields } => iface_text(fields),
    }
}

/// Appends `lit` to `out`.
pub(crate) fn append_lit(out: &mut String, lit: &str)
    ensures
        final(out)@ == old(out)@ + lit@,
{
    out.append(lit);
}

/// Appends the decimal digit `d` to `out`.
fn append_digit(out: &mut String, d: u128)
    requires
        d < 10,
    ensures
        final(out)@ == old(out)@.push(digit_char(d as nat)),
{
    let lit = if d == 0 {
        "0"
    } else if d == 1 {
        "1"
    } else if d == 2 {
        "2"
    } else if d == 3 {
        "3"
    } else if d == 4 {
        "4"
    } else if d == 5 {
        "5"
    } else if d == 6 {
        "6"
    } else if d == 7 {
        "7"
    } else if d == 8 {
        "8"
    } else {
        "9"
    };
    proof {
        reveal_strlit("0");
        reveal_strlit("1");
        reveal_strlit("2");
        reveal_strlit("3");
        reveal_strlit("4");
        reveal_strlit("5");
        reveal_strlit("6");
        reveal_strlit("7");
        reveal_strlit("8");
        reveal_strlit("9");
    }
    let ghost before = out@;
    out.append(lit);
    assert(out@ =~= before.push(digit_char(d as nat)));
}

/// Appends the decimal writing of `n` to `out`.
pub(crate) fn append_decimal(out: &mut String, n: u128)
    ensures
        final(out)@ == old(out)@ + decimal(n as nat),
    decreases n,
{
    let ghost before = out@;
    if n >= 10 {
        append_decimal(out, n / 10);
    }
    append_digit(out, n % 10);
    proof {
        if n >= 10 {
            assert(out@ =~= before + decimal(n as nat));
        } else {
            assert(out@ =~= before + decimal(n as nat));
        }
    }
}

/// Appends the text of an identifier to `out`.
pub(crate) fn append_id(out: &mut String, id: TypeId)
    ensures
        final(out)@ == old(out)@ + id_text(id),
{
    proof {
        reveal_strlit("never");
        reveal_strlit("any");
        reveal_strlit("unknown");
        reveal_strlit("nil");
        reveal_strlit("boolean");
        reveal_strlit("number");
        reveal_strlit("string");
        reveal_strlit("TypeId(");
        reveal_strlit(")");
    }
    let ghost before = out@;
    if id.0 == 0 {
        append_lit(out, "never");
    } else if id.0 == 1 {
        append_lit(out, "any");
    } else if id.0 == 2 {
        append_lit(out, "unknown");
    } else if id.0 == 3 {
        append_lit(out, "nil");
    } else if id.0 == 4 {
        append_lit(out, "boolean");
    } else if id.0 == 5 {
        append_lit(out, "number");
    } else if id.0 == 6 {
        append_lit(out, "string");
    } else {
        append_lit(out, "TypeId(");
        append_decimal(out, id.0 as u128);
        append_lit(out, ")");
        assert(out@ =~= before + id_text(id));
    }
}

/// Appends the texts of `ids` separated by `sep` to `out`.
fn append_ids(out: &mut String, ids: &Vec<TypeId>, sep: &str)
    ensures
        final(out)@ == old(out)@ + join_ids(ids@, sep@),
{
    let ghost before = out@;
    let mut i: usize = 0;
    while i < ids.len()
        invariant
            i <= ids.len(),
            out@ == before + join_ids(ids@.take(i as int), sep@),
        decreases ids.len() - i,
    {
        let ghost prev = out@;
        if i > 0 {
            append_lit(out, sep);
        }
        append_id(out, ids[i]);
        proof {
            let t = ids@.take(i + 1);
            assert(t.drop_last() =~= ids@.take(i as int));
            if i == 0 {
                assert(out@ =~= before + join_ids(t, sep@));
            } else {
                assert(out@ =~= before + join_ids(t, sep@));
            }
        }
        i += 1;
    }
    assert(ids@.take(ids.len() as int) =~= ids@);
}

/// Appends the texts ` k: v;` of the fields to `out`.
fn append_fields(out: &mut String, fields: &Vec<(TypeId, TypeId)>)
    ensures
        final(out)@ == old(out)@ + fields_text(fields@),
{
    proof {
        reveal_strlit(" ");
        reveal_strlit(": ");
        reveal_strlit(";");
    }
    let ghost before = out@;
    let mut i: usize = 0;
    while i < fields.len()
        invariant
            i <= fields.len(),
            out@ == before + fields_text(fields@.take(i as int)),
        decreases fields.len() - i,
    {
        let (k, v) = fields[i];
        append_lit(out, " ");
        append_id(out, k);
        append_lit(out, ": ");
        append_id(out, v);
        append_lit(out, ";");
        proof {
            let t = fields@.take(i + 1);
            assert(t.drop_last() =~= fields@.take(i as int));
            assert(t.last() == (k, v));
            assert(out@ =~= before + fields_text(t));
        }
        i += 1;
    }
    assert(fields@.take(fields.len() as int) =~= fields@);
}

/// Text of a type ([type_text]).
pub fn type_string(t: &Type) -> (r: String)
    ensures
        r@ == type_text(t@),
{
    proof {
        reveal_strlit("never");
        reveal_strlit("any");
        reveal_strlit("unknown");
        reveal_strlit("nil");
        reveal_strlit("boolean");
        reveal_strlit("number");
        reveal_strlit("string");
        reveal_strlit("(");
        reveal_strlit(", ");
        reveal_strlit(") -> (");
        reveal_strlit(")");
        reveal_strlit("<empty union>");
        reveal_strlit(" | ");
        reveal_strlit("{");
        reveal_strlit(" }");
    }
    let mut out = String::new();
    match t {
        Type::Never => append_lit(&mut out, "never"),
        Type::Any => append_lit(&mut out, "any"),
        Type::Unknown => append_lit(&mut out, "unknown"),
        Type::Literal { value, .. } => {
            return value.clone();
        },
        Type::Primitive { kind, .. } => match kind {
            PrimitiveKind::Nil => append_lit(&mut out, "nil"),
            PrimitiveKind::Boolean => append_lit(&mut out, "boolean"),
            PrimitiveKind::Number => append_lit(&mut out, "number"),
            PrimitiveKind::String => append_lit(&mut out, "string"),
        },
        Type::Function(f) | Type::Require(f) => {
            append_lit(&mut out, "(");
            append_ids(&mut out, &f.params, ", ");
            append_lit(&mut out, ") -> (");
            append_ids(&mut out, &f.results, ", ");
            append_lit(&mut out, ")");
        },
        Type::Union(u) => {
            if u.types.len() == 0 {
                append_lit(&mut out, "<empty union>");
            } else {
                append_ids(&mut out, &u.types, " | ");
            }
        },
        Type::Iface(i) | Type::Global(i) => {
            append_lit(&mut out, "{");
            append_fields(&mut out, i.fields());
            append_lit(&mut out, " }");
        },
    }
    out
}

impl TypeId {
    /// Debug text of the identifier ([id_text]): the builtin types by name,
    /// others as `TypeId(n)`.
    pub fn debug_text(&self) -> (r: String)
        ensures
            r@ == id_text(*self),
    {
        let mut out = String::new();
        append_id(&mut out, *self);
        out
    }
}

impl PrimitiveKind {
    /// Name of the kind ([kind_text]).
    pub fn name(&self) -> (r: &'static str)
        ensures
            r@ == kind_text(*self),
    {
        match self {
            PrimitiveKind::Nil => "nil",
            PrimitiveKind::Boolean => "boolean",
            PrimitiveKind::Number => "number",
            PrimitiveKind::String => "string",
        }
    }
}

impl Type {
    /// Text of the type ([type_text]).
    pub fn to_string(&self) -> (r: String)
        ensures
            r@ == type_text(self@),
    {
        type_string(self)
    }
}

} // verus!
