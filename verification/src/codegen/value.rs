//! Conversions to and from the run-time's dynamic `value`, and the text of
//! literals.
use vstd::prelude::*;
use crate::codegen::names::opt_view;
use crate::text::{cat, cat3, cat5};
use crate::types::{Type, TypeModel, field_models};

verus! {

/// Rust expression that packs the value the Rust name `var` refers to (by
/// reference) into a `titan_runtime::Value`; composites are converted
/// element by element.  `None` for the types that have no `value` form.
pub open spec fn spec_to_value_of_var(t: TypeModel, var: Seq<char>) -> Option<Seq<char>>
    decreases t, 1int,
{
    match t {
        TypeModel::Nil => Some("titan_runtime::Value::Nil"@),
        TypeModel::Boolean => Some("titan_runtime::Value::Boolean(*"@ + var + ")"@),
        TypeModel::Integer => Some("titan_runtime::Value::Integer(*"@ + var + ")"@),
        TypeModel::Float => Some("titan_runtime::Value::Float(*"@ + var + ")"@),
        TypeModel::String => Some("titan_runtime::Value::String("@ + var + ".clone())"@),
        TypeModel::Array { elem } => match spec_to_value_of_var(*elem, "titan_e2"@) {
            Some(i) => Some(
                "titan_runtime::Value::Array("@ + var + ".iter().map(|titan_e2| "@ + i
                    + ").collect())"@,
            ),
            None => None,
        },
        TypeModel::Dict { keys, values } => match (
            spec_to_value_of_var(*keys, "titan_k2"@),
            spec_to_value_of_var(*values, "titan_v2"@),
        ) {
            (Some(k), Some(v)) => Some(
                "titan_runtime::Value::Map("@ + var + ".iter().map(|(titan_k2, titan_v2)| ("@
                    + k + ", "@ + v + ")).collect())"@,
            ),
            _ => None,
        },
        TypeModel::Record { name, fields } => match spec_to_value_of_fields(fields, var) {
            Some(cs) => Some(
                "titan_runtime::Value::Record { nome: \""@ + name
                    + "\".to_string(), campos: vec!["@ + cs + "] }"@,
            ),
            None => None,
        },
        TypeModel::Option { base } => match spec_to_value_of_var(*base, "titan_o2"@) {
            Some(i) => Some(
                "match "@ + var + " { Some(titan_o2) => titan_runtime::Value::Option(Box::new("@
                    + i + ")), None => titan_runtime::Value::Nil }"@,
            ),
            None => None,
        },
        TypeModel::Value => Some(var + ".clone()"@),
        _ => None,
    }
}

/// As `spec_to_value_of_var`, for a record field reached through a
/// reference (`titan_r.x`): scalars are read without `*`.
pub open spec fn spec_to_value_of_field(t: TypeModel, place: Seq<char>) -> Option<Seq<char>>
    decreases t, 2int,
{
    match t {
        TypeModel::Boolean => Some("titan_runtime::Value::Boolean("@ + place + ")"@),
        TypeModel::Integer => Some("titan_runtime::Value::Integer("@ + place + ")"@),
        TypeModel::Float => Some("titan_runtime::Value::Float("@ + place + ")"@),
        _ => spec_to_value_of_var(t, place),
    }
}

/// The `(name, value)` pairs of the fields of the record that `var` refers
/// to, joined by `", "`.
pub open spec fn spec_to_value_of_fields(fs: Seq<(Seq<char>, TypeModel)>, var: Seq<char>) -> Option<Seq<char>>
    decreases fs, 0int,
{
    if fs.len() == 0 {
        Some(Seq::empty())
    } else {
        match (
            spec_to_value_of_fields(fs.drop_last(), var),
            spec_to_value_of_field(fs.last().1, var + "."@ + fs.last().0),
        ) {
            (Some(front), Some(conv)) => {
                let entry = "(\""@ + fs.last().0 + "\".to_string(), "@ + conv + ")"@;
                Some(if fs.len() == 1 { entry } else { front + ", "@ + entry })
            },
            _ => None,
        }
    }
}

/// Once one field has no `value` form, the record has none.
proof fn lemma_fields_none(fs: Seq<(Seq<char>, TypeModel)>, var: Seq<char>, i: int)
    requires
        0 <= i < fs.len(),
        spec_to_value_of_field(fs[i].1, var + "."@ + fs[i].0) is None,
    ensures
        spec_to_value_of_fields(fs, var) is None,
    decreases fs.len(),
{
    if i < fs.len() - 1 {
        assert(fs.drop_last()[i] == fs[i]);
        lemma_fields_none(fs.drop_last(), var, i);
    }
}

/// Rust expression that packs the value that the Rust name `var` refers to
/// (by reference) into a `titan_runtime::Value`.
#[verifier::loop_isolation(false)]
pub fn emit_to_value_of_var(ty: &Type, var: &str) -> (r: Option<String>)
    ensures
        opt_view(r) == spec_to_value_of_var(ty.model(), var@),
    decreases ty, 1int,
{
    match ty {
        Type::Nil => Some(String::from_str("titan_runtime::Value::Nil")),
        Type::Boolean => Some(cat3("titan_runtime::Value::Boolean(*", var, ")")),
        Type::Integer => Some(cat3("titan_runtime::Value::Integer(*", var, ")")),
        Type::Float => Some(cat3("titan_runtime::Value::Float(*", var, ")")),
        Type::String => Some(cat3("titan_runtime::Value::String(", var, ".clone())")),
        Type::Array { elem } => {
            let inner = emit_to_value_of_var(&**elem, "titan_e2")?;
            Some(cat5("titan_runtime::Value::Array(", var, ".iter().map(|titan_e2| ", inner.as_str(), ").collect())"))
        },
        Type::Dict { keys, values } => {
            let k = emit_to_value_of_var(&**keys, "titan_k2");
            let v = emit_to_value_of_var(&**values, "titan_v2");
            let k = k?;
            let v = v?;
            let mut s = cat5("titan_runtime::Value::Map(", var, ".iter().map(|(titan_k2, titan_v2)| (", k.as_str(), ", ");
            s.append(v.as_str());
            s.append(")).collect())");
            Some(s)
        },
        Type::Record { name, fields } => {
            let ghost fm = field_models(fields@);
            let mut campos = String::new();
            let mut i: usize = 0;
            while i < fields.len()
                invariant
                    i <= fields@.len(),
                    fm == field_models(fields@),
                    fm.len() == fields@.len(),
                    spec_to_value_of_fields(fm.subrange(0, i as int), var@) == Some(campos@),
                decreases fields@.len() - i,
            {
                proof { assert(decreases_to!(fields => fields@[i as int].1)); }
                let place = cat3(var, ".", fields[i].0.as_str());
                proof {
                    assert(fm[i as int] == (fields@[i as int].0@, fields@[i as int].1.model()));
                    assert(fm.subrange(0, i + 1).drop_last() =~= fm.subrange(0, i as int));
                    assert(fm.subrange(0, i + 1).last() == fm[i as int]);
                }
                let conv = match emit_to_value_of_field(&fields[i].1, place.as_str()) {
                    Some(c) => c,
                    None => {
                        proof {
                            lemma_fields_none(fm, var@, i as int);
                            assert(ty.model() == (TypeModel::Record { name: name@, fields: fm }));
                        }
                        return None;
                    },
                };
                if i > 0 {
                    campos.append(", ");
                }
                campos.append("(\"");
                campos.append(fields[i].0.as_str());
                campos.append("\".to_string(), ");
                campos.append(conv.as_str());
                campos.append(")");
                i += 1;
            }
            proof {
                assert(fm.subrange(0, fields@.len() as int) =~= fm);
                assert(ty.model() == (TypeModel::Record { name: name@, fields: fm }));
            }
            let mut s = cat3("titan_runtime::Value::Record { nome: \"", name.as_str(), "\".to_string(), campos: vec![");
            s.append(campos.as_str());
            s.append("] }");
            Some(s)
        },
        Type::Option { base } => {
            let inner = emit_to_value_of_var(&**base, "titan_o2")?;
            Some(cat5(
                "match ",
                var,
                " { Some(titan_o2) => titan_runtime::Value::Option(Box::new(",
                inner.as_str(),
                ")), None => titan_runtime::Value::Nil }",
            ))
        },
        Type::Value => Some(cat(var, ".clone()")),
        _ => None,
    }
}

/// As `emit_to_value_of_var`, for a record field reached through a
/// reference (`titan_r.x`).
pub fn emit_to_value_of_field(ty: &Type, place: &str) -> (r: Option<String>)
    ensures
        opt_view(r) == spec_to_value_of_field(ty.model(), place@),
    decreases ty, 2int,
{
    match ty {
        Type::Boolean => Some(cat3("titan_runtime::Value::Boolean(", place, ")")),
        Type::Integer => Some(cat3("titan_runtime::Value::Integer(", place, ")")),
        Type::Float => Some(cat3("titan_runtime::Value::Float(", place, ")")),
        _ => emit_to_value_of_var(ty, place),
    }
}

/// Text of a string literal as Rust writes it: quoted, with its special
/// characters escaped (what `{:?}` prints for a `str`).
pub uninterp spec fn spec_debug_text(v: Seq<char>) -> Seq<char>;

/// The `Debug` rendering of a string slice (std's `format!("{:?}", v)`):
/// the literal in quotes with escapes.  Stated only as a function of `v`.
#[verifier::external_body]
pub(crate) fn format_string_literal(v: &str) -> (r: String)
    ensures
        r@ == spec_debug_text(v@),
{
    format!("{:?}", v)
}

} // verus!
