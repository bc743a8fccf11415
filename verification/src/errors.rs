//! Errors reported by the type checkers.
use vstd::prelude::*;

use crate::text::{append_decimal, append_id, append_lit, decimal, id_text};
use crate::types::{debug_quote, debug_quoted, TypeId};

verus! {

/// TypeCheckError enumerates errors returned by a type checker during type
/// checking.
#[derive(Debug, PartialEq)]
pub enum TypeCheckError {
    IncompatibleType(IncompatibleTypeError),
    InvalidTypeId(TypeId),
    TargetSignatureTooFewParams { expected: usize, got: usize },
    SourceSignatureTooFewResults { expected: usize, got: usize },
    IncompatibleParameterType { nth: usize, source: Box<TypeCheckError> },
    IncompatibleReturnType { nth: usize, source: Box<TypeCheckError> },
    IncompatibleFieldType { field_name: String, source: Box<TypeCheckError> },
    RequiredFieldMissing { field_name: TypeId, field_type: TypeId },
}

/// A source type is not assignable to a target type, for the given reasons.
#[derive(Debug, PartialEq)]
pub struct IncompatibleTypeError {
    pub source_type: TypeId,
    pub target_type: TypeId,
    pub reasons: Vec<TypeCheckError>,
}

/// Mathematical model of a [TypeCheckError].
pub enum CheckErr {
    Incompatible { source: TypeId, target: TypeId, reasons: Seq<CheckErr> },
    InvalidTypeId(TypeId),
    TooFewParams { expected: usize, got: usize },
    TooFewResults { expected: usize, got: usize },
    Parameter { nth: usize, source: Box<CheckErr> },
    Return { nth: usize, source: Box<CheckErr> },
    Field { name: Seq<char>, source: Box<CheckErr> },
    Missing { name: TypeId, ty: TypeId },
}

/// Model of an error.
pub open spec fn err_model(e: TypeCheckError) -> CheckErr
    decreases e,
{
    match e {
        TypeCheckError::IncompatibleType(x) => CheckErr::Incompatible {
            source: x.source_type,
            target: x.target_type,
            reasons: errs_model(x.reasons@),
        },
        TypeCheckError::InvalidTypeId(id) => CheckErr::InvalidTypeId(id),
        TypeCheckError::TargetSignatureTooFewParams { expected, got } => CheckErr::TooFewParams {
            expected,
            got,
        },
        TypeCheckError::SourceSignatureTooFewResults { expected, got } => CheckErr::TooFewResults {
            expected,
            got,
        },
        TypeCheckError::IncompatibleParameterType { nth, source } => CheckErr::Parameter {
            nth,
            source: Box::new(err_model(*source)),
        },
        TypeCheckError::IncompatibleReturnType { nth, source } => CheckErr::Return {
            nth,
            source: Box::new(err_model(*source)),
        },
        TypeCheckError::IncompatibleFieldType { field_name, source } => CheckErr::Field {
            name: field_name@,
            source: Box::new(err_model(*source)),
        },
        TypeCheckError::RequiredFieldMissing { field_name, field_type } => CheckErr::Missing {
            name: field_name,
            ty: field_type,
        },
    }
}

/// Models of a sequence of errors.
pub open spec fn errs_model(s: Seq<TypeCheckError>) -> Seq<CheckErr>
    decreases s,
{
    if s.len() == 0 {
        seq![]
    } else {
        errs_model(s.drop_last()).push(err_model(s.last()))
    }
}

impl View for TypeCheckError {
    type V = CheckErr;

    open spec fn view(&self) -> CheckErr {
        err_model(*self)
    }
}

/// `s` with `pad` at the start of each of its lines.
pub open spec fn indent(s: Seq<char>, pad: Seq<char>) -> Seq<char> {
    pad + pad_after_newlines(s, pad)
}

/// `s` with `pad` after each of its newlines.
pub open spec fn pad_after_newlines(s: Seq<char>, pad: Seq<char>) -> Seq<char>
    decreases s.len(),
{
    if s.len() == 0 {
        seq![]
    } else if s.last() == '\n' {
        pad_after_newlines(s.drop_last(), pad) + seq!['\n'] + pad
    } else {
        pad_after_newlines(s.drop_last(), pad).push(s.last())
    }
}

/// Message of an error, as the type checker reports it.
pub open spec fn err_text(e: CheckErr) -> Seq<char>
    decreases e,
{
    match e {
        CheckErr::Incompatible { source, target, reasons } => "Type \""@ + id_text(source)
            + "\" is not assignable to type \""@ + id_text(target) + "\"."@ + if reasons.len()
            == 0 {
            Seq::<char>::empty()
        } else {
            "\n"@ + reasons_text(reasons)
        },
        CheckErr::InvalidTypeId(id) => "Invalid type id "@ + id_text(id)
            + ", this is likely a bug, please report it at https://github.com/negrel/allelua/issues"@,
        CheckErr::TooFewParams { expected, got } =>
            "Target signature provides too few parameters. Expected "@ + decimal(expected as nat)
            + " or more, but got "@ + decimal(got as nat) + "."@,
        CheckErr::TooFewResults { expected, got } =>
            "Source signature provides too few results. Expected "@ + decimal(expected as nat)
            + " or more, but got "@ + decimal(got as nat) + "."@,
        CheckErr::Parameter { nth, source } => "Type of parameters "@ + decimal(nth as nat)
            + " are incompatible.\n"@ + indent(err_text(*source), "  "@),
        CheckErr::Return { nth, source } => "Type of return values "@ + decimal(nth as nat)
            + " are incompatible.\n"@ + indent(err_text(*source), "  "@),
        CheckErr::Field { name, source } => "Type of fields "@ + debug_quoted(name)
            + " are incompatible.\n"@ + indent(err_text(*source), "  "@),
        CheckErr::Missing { name, ty } => "Mandatory field "@ + id_text(name) + " of type \""@
            + id_text(ty) + "\" is missing"@,
    }
}

/// Messages of the reasons, each indented, one per line.
pub open spec fn reasons_text(reasons: Seq<CheckErr>) -> Seq<char>
    decreases reasons,
{
    if reasons.len() == 0 {
        seq![]
    } else if reasons.len() == 1 {
        indent(err_text(reasons[0]), "  "@)
    } else {
        reasons_text(reasons.drop_last()) + "\n"@ + indent(err_text(reasons.last()), "  "@)
    }
}

/// Message of an incompatible field whose name, quoted, is `quoted`, and
/// whose type's incompatibility reads `inner`.
pub fn field_error_text(quoted: &str, inner: &str) -> (r: String)
    ensures
        r@ == "Type of fields "@ + quoted@ + " are incompatible.\n"@ + indent(inner@, "  "@),
{
    let mut out = String::new();
    append_lit(&mut out, "Type of fields ");
    append_lit(&mut out, quoted);
    append_lit(&mut out, " are incompatible.\n");
    append_indented(&mut out, inner);
    out
}

/// Appends `s` to `out` with two spaces at the start of each line.
fn append_indented(out: &mut String, s: &str)
    ensures
        final(out)@ == old(out)@ + indent(s@, "  "@),
{
    proof {
        reveal_strlit("  ");
        reveal_strlit("\n  ");
    }
    let ghost before = out@;
    append_lit(out, "  ");
    let n = s.unicode_len();
    let mut i: usize = 0;
    while i < n
        invariant
            n == s@.len(),
            i <= n,
            out@ == before + "  "@ + pad_after_newlines(s@.take(i as int), "  "@),
        decreases n - i,
    {
        proof {
            reveal_strlit("  ");
            reveal_strlit("\n  ");
        }
        let c = s.get_char(i);
        let ghost t = s@.take(i + 1);
        assert(t.drop_last() =~= s@.take(i as int));
        assert(t.last() == c);
        if c == '\n' {
            append_lit(out, "\n  ");
            assert(out@ =~= before + "  "@ + pad_after_newlines(t, "  "@));
        } else {
            append_lit(out, s.substring_char(i, i + 1));
            assert(out@ =~= before + "  "@ + pad_after_newlines(t, "  "@));
        }
        i += 1;
    }
    assert(s@.take(n as int) =~= s@);
}

impl TypeCheckError {
    /// Message of the error ([err_text]).
    pub fn to_string(&self) -> (r: String)
        ensures
            r@ == err_text(self@),
        decreases self,
    {
        proof {
            reveal_strlit("Invalid type id ");
            reveal_strlit(
                ", this is likely a bug, please report it at https://github.com/negrel/allelua/issues",
            );
            reveal_strlit("Target signature provides too few parameters. Expected ");
            reveal_strlit("Source signature provides too few results. Expected ");
            reveal_strlit(" or more, but got ");
            reveal_strlit(".");
            reveal_strlit("Type of parameters ");
            reveal_strlit("Type of return values ");
            reveal_strlit("Type of fields ");
            reveal_strlit(" are incompatible.\n");
            reveal_strlit("Mandatory field ");
            reveal_strlit(" of type \"");
            reveal_strlit("\" is missing");
        }
        let mut out = String::new();
        match self {
            TypeCheckError::IncompatibleType(err) => {
                return err.to_string();
            },
            TypeCheckError::InvalidTypeId(id) => {
                append_lit(&mut out, "Invalid type id ");
                append_id(&mut out, *id);
                append_lit(
                    &mut out,
                    ", this is likely a bug, please report it at https://github.com/negrel/allelua/issues",
                );
            },
            TypeCheckError::TargetSignatureTooFewParams { expected, got } => {
                append_lit(&mut out, "Target signature provides too few parameters. Expected ");
                append_decimal(&mut out, *expected as u128);
                append_lit(&mut out, " or more, but got ");
                append_decimal(&mut out, *got as u128);
                append_lit(&mut out, ".");
            },
            TypeCheckError::SourceSignatureTooFewResults { expected, got } => {
                append_lit(&mut out, "Source signature provides too few results. Expected ");
                append_decimal(&mut out, *expected as u128);
                append_lit(&mut out, " or more, but got ");
                append_decimal(&mut out, *got as u128);
                append_lit(&mut out, ".");
            },
            TypeCheckError::IncompatibleParameterType { nth, source } => {
                append_lit(&mut out, "Type of parameters ");
                append_decimal(&mut out, *nth as u128);
                append_lit(&mut out, " are incompatible.\n");
                let inner = source.to_string();
                append_indented(&mut out, inner.as_str());
            },
            TypeCheckError::IncompatibleReturnType { nth, source } => {
                append_lit(&mut out, "Type of return values ");
                append_decimal(&mut out, *nth as u128);
                append_lit(&mut out, " are incompatible.\n");
                let inner = source.to_string();
                append_indented(&mut out, inner.as_str());
            },
            TypeCheckError::IncompatibleFieldType { field_name, source } => {
                let quoted = debug_quote(field_name);
                let inner = source.to_string();
                let text = field_error_text(quoted.as_str(), inner.as_str());
                append_lit(&mut out, text.as_str());
            },
            TypeCheckError::RequiredFieldMissing { field_name, field_type } => {
                append_lit(&mut out, "Mandatory field ");
                append_id(&mut out, *field_name);
                append_lit(&mut out, " of type \"");
                append_id(&mut out, *field_type);
                append_lit(&mut out, "\" is missing");
            },
        }
        out
    }
}

impl IncompatibleTypeError {
    /// Message of the error ([err_text] of its model).
    pub fn to_string(&self) -> (r: String)
        ensures
            r@ == err_text(
                CheckErr::Incompatible {
                    source: self.source_type,
                    target: self.target_type,
                    reasons: errs_model(self.reasons@),
                },
            ),
        decreases self,
    {
        proof {
            reveal_strlit("Type \"");
            reveal_strlit("\" is not assignable to type \"");
            reveal_strlit("\".");
            reveal_strlit("\n");
        }
        let mut out = String::new();
        append_lit(&mut out, "Type \"");
        append_id(&mut out, self.source_type);
        append_lit(&mut out, "\" is not assignable to type \"");
        append_id(&mut out, self.target_type);
        append_lit(&mut out, "\".");
        let ghost head = out@;
        let ghost rs = errs_model(self.reasons@);
        proof {
            lemma_errs_model_len(self.reasons@);
        }
        let mut i: usize = 0;
        while i < self.reasons.len()
            invariant
                i <= self.reasons.len(),
                rs == errs_model(self.reasons@),
                rs.len() == self.reasons@.len(),
                out@ == head + if i == 0 {
                    Seq::<char>::empty()
                } else {
                    "\n"@ + reasons_text(rs.take(i as int))
                },
            decreases self.reasons.len() - i,
        {
            proof {
                reveal_strlit("\n");
            }
            let ghost prev = out@;
            append_lit(&mut out, "\n");
            let text = self.reasons[i].to_string();
            append_indented(&mut out, text.as_str());
            proof {
                lemma_errs_model_index(self.reasons@, i as int);
                let t = rs.take(i + 1);
                assert(t.drop_last() =~= rs.take(i as int));
                assert(t.last() == rs[i as int]);
                if i == 0 {
                    assert(t =~= seq![rs[0]]);
                }
                assert(out@ =~= head + ("\n"@ + reasons_text(t)));
            }
            i += 1;
        }
        proof {
            lemma_errs_model_len(self.reasons@);
            assert(rs.take(i as int) =~= rs);
        }
        out
    }
}

/// [errs_model] keeps the length.
pub proof fn lemma_errs_model_len(s: Seq<TypeCheckError>)
    ensures
        errs_model(s).len() == s.len(),
    decreases s.len(),
{
    if s.len() > 0 {
        lemma_errs_model_len(s.drop_last());
    }
}

/// [errs_model] models each error.
pub proof fn lemma_errs_model_index(s: Seq<TypeCheckError>, i: int)
    requires
        0 <= i < s.len(),
    ensures
        errs_model(s)[i] == err_model(s[i]),
    decreases s.len(),
{
    lemma_errs_model_len(s.drop_last());
    if i < s.len() - 1 {
        lemma_errs_model_index(s.drop_last(), i);
    }
}

} // verus!
