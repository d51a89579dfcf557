//! Rendering of types for messages, operator spellings, and the small
//! predicates over types that the typing rules use.
use vstd::prelude::*;
use crate::ast::{Exp, Var};
use crate::capabilities::{first_module_named, lookup_module, spec_capabilities, Capability};
use crate::checker::typed::BinOp;
use crate::text::str_eq;
use crate::types::{Type, TypeModel};

verus! {

/// Text of a type in messages and hover: `integer`, `{T}`,
/// `map {K: V}`, `T?`, the bare name of a record or enum, and
/// `module.Name` for an opaque type.
pub open spec fn spec_type_name(t: TypeModel) -> Seq<char>
    decreases t,
{
    match t {
        TypeModel::Invalid => "<inválido>"@,
        TypeModel::Nil => "nil"@,
        TypeModel::Boolean => "boolean"@,
        TypeModel::Integer => "integer"@,
        TypeModel::Float => "float"@,
        TypeModel::String => "string"@,
        TypeModel::Value => "value"@,
        TypeModel::Function { .. } => "function"@,
        TypeModel::Array { elem } => "{"@ + spec_type_name(*elem) + "}"@,
        TypeModel::Dict { keys, values } => "map {"@ + spec_type_name(*keys) + ": "@
            + spec_type_name(*values) + "}"@,
        TypeModel::Record { name, .. } => name,
        TypeModel::Sum { name, .. } => name,
        TypeModel::Option { base } => spec_type_name(*base) + "?"@,
        TypeModel::Opaque { module, name, .. } => module + "."@ + name,
    }
}

/// Formats a type for error messages and for hover.
pub fn type_name_of(ty: &Type) -> (r: String)
    ensures
        r@ == spec_type_name(ty.model()),
    decreases ty,
{
    match ty {
        Type::Invalid => String::from_str("<inválido>"),
        Type::Nil => String::from_str("nil"),
        Type::Boolean => String::from_str("boolean"),
        Type::Integer => String::from_str("integer"),
        Type::Float => String::from_str("float"),
        Type::String => String::from_str("string"),
        Type::Value => String::from_str("value"),
        Type::Function { .. } => String::from_str("function"),
        Type::Array { elem } => {
            let inner = type_name_of(&**elem);
            let mut s = String::from_str("{");
            s.append(inner.as_str());
            s.append("}");
            s
        },
        Type::Dict { keys, values } => {
            let k = type_name_of(&**keys);
            let v = type_name_of(&**values);
            let mut s = String::from_str("map {");
            s.append(k.as_str());
            s.append(": ");
            s.append(v.as_str());
            s.append("}");
            s
        },
        Type::Record { name, .. } => name.clone(),
        Type::Sum { name, .. } => name.clone(),
        Type::Option { base } => {
            let mut s = type_name_of(&**base);
            s.append("?");
            s
        },
        Type::Opaque { module, name, .. } => {
            let mut s = module.clone();
            s.append(".");
            s.append(name.as_str());
            s
        },
    }
}

/// The operator that a source spelling denotes, if any.
pub open spec fn spec_binop_from_source(op: Seq<char>) -> Option<BinOp> {
    if op == "+"@ { Some(BinOp::Add) }
    else if op == "-"@ { Some(BinOp::Sub) }
    else if op == "*"@ { Some(BinOp::Mul) }
    else if op == "/"@ { Some(BinOp::Div) }
    else if op == "%"@ { Some(BinOp::Mod) }
    else if op == "^"@ { Some(BinOp::Pow) }
    else if op == "=="@ { Some(BinOp::Eq) }
    else if op == "~="@ { Some(BinOp::Ne) }
    else if op == "<"@ { Some(BinOp::Lt) }
    else if op == ">"@ { Some(BinOp::Gt) }
    else if op == "<="@ { Some(BinOp::Le) }
    else if op == ">="@ { Some(BinOp::Ge) }
    else if op == "and"@ { Some(BinOp::And) }
    else if op == "or"@ { Some(BinOp::Or) }
    else if op == "//"@ { Some(BinOp::IDiv) }
    else if op == "&"@ { Some(BinOp::BAnd) }
    else if op == "|"@ { Some(BinOp::BOr) }
    else if op == "~"@ { Some(BinOp::BXor) }
    else if op == "<<"@ { Some(BinOp::Shl) }
    else if op == ">>"@ { Some(BinOp::Shr) }
    else { None }
}

/// No binary operator can be written two ways: two spellings that denote
/// the same operator are the same spelling.
pub proof fn law_binop_spelling_unique(a: Seq<char>, b: Seq<char>)
    requires
        spec_binop_from_source(a) is Some,
        spec_binop_from_source(a) == spec_binop_from_source(b),
    ensures
        a == b,
{
}

/// The binary operators of Titan are written with exactly these twenty
/// spellings; any other text denotes none.
pub proof fn law_binop_spellings(s: Seq<char>)
    ensures
        spec_binop_from_source(s) is Some <==> (s == "+"@ || s == "-"@ || s == "*"@ || s == "/"@
            || s == "%"@ || s == "^"@ || s == "=="@ || s == "~="@ || s == "<"@ || s == ">"@
            || s == "<="@ || s == ">="@ || s == "and"@ || s == "or"@ || s == "//"@ || s == "&"@
            || s == "|"@ || s == "~"@ || s == "<<"@ || s == ">>"@),
{
}

impl BinOp {
    /// The operator written `op` in Titan source (binary `~` is exclusive
    /// or; `^` is exponentiation).
    pub fn from_source(op: &str) -> (r: Option<BinOp>)
        ensures
            r == spec_binop_from_source(op@),
    {
        if str_eq(op, "+") { Some(BinOp::Add) }
        else if str_eq(op, "-") { Some(BinOp::Sub) }
        else if str_eq(op, "*") { Some(BinOp::Mul) }
        else if str_eq(op, "/") { Some(BinOp::Div) }
        else if str_eq(op, "%") { Some(BinOp::Mod) }
        else if str_eq(op, "^") { Some(BinOp::Pow) }
        else if str_eq(op, "==") { Some(BinOp::Eq) }
        else if str_eq(op, "~=") { Some(BinOp::Ne) }
        else if str_eq(op, "<") { Some(BinOp::Lt) }
        else if str_eq(op, ">") { Some(BinOp::Gt) }
        else if str_eq(op, "<=") { Some(BinOp::Le) }
        else if str_eq(op, ">=") { Some(BinOp::Ge) }
        else if str_eq(op, "and") { Some(BinOp::And) }
        else if str_eq(op, "or") { Some(BinOp::Or) }
        else if str_eq(op, "//") { Some(BinOp::IDiv) }
        else if str_eq(op, "&") { Some(BinOp::BAnd) }
        else if str_eq(op, "|") { Some(BinOp::BOr) }
        else if str_eq(op, "~") { Some(BinOp::BXor) }
        else if str_eq(op, "<<") { Some(BinOp::Shl) }
        else if str_eq(op, ">>") { Some(BinOp::Shr) }
        else { None }
    }
}

/// Types that take part in arithmetic and in the integer-to-float
/// coercion.
pub open spec fn spec_is_numeric(t: TypeModel) -> bool {
    t is Integer || t is Float
}

pub fn is_numeric(ty: &Type) -> (r: bool)
    ensures
        r == spec_is_numeric(ty.model()),
{
    matches!(ty, Type::Integer | Type::Float)
}

/// Types passed by `&mut` in the generated Rust: arrays, maps, records and
/// opaque values.
pub open spec fn spec_is_composite(t: TypeModel) -> bool {
    t is Array || t is Dict || t is Record || t is Opaque
}

pub fn is_composite(ty: &Type) -> (r: bool)
    ensures
        r == spec_is_composite(ty.model()),
{
    matches!(ty, Type::Array { .. } | Type::Dict { .. } | Type::Record { .. } | Type::Opaque { .. })
}

/// Result type of combining two operands already known to be numeric:
/// `integer` only when both sides are `integer`, `float` otherwise.
pub open spec fn spec_numeric_result(lhs: TypeModel, rhs: TypeModel) -> TypeModel {
    if lhs is Integer && rhs is Integer {
        TypeModel::Integer
    } else {
        TypeModel::Float
    }
}

pub fn numeric_result(lhs: &Type, rhs: &Type) -> (r: Type)
    ensures
        r.model() == spec_numeric_result(lhs.model(), rhs.model()),
{
    if lhs.equals(&Type::Integer) && rhs.equals(&Type::Integer) {
        Type::Integer
    } else {
        Type::Float
    }
}

/// The opaque type of a module's table entry that a placeholder result type
/// stands for: the one named `name` if there is one, else the first.
pub open spec fn spec_pick_opaque(ots: Seq<(Seq<char>, Seq<char>)>, name: Seq<char>, j: int) -> bool {
    &&& 0 <= j < ots.len()
    &&& if exists|i: int| 0 <= i < ots.len() && ots[i].0 == name {
        ots[j].0 == name && forall|i: int| 0 <= i < j ==> ots[i].0 != name
    } else {
        j == 0
    }
}

/// Fills the placeholder opaque result type of a capability function with
/// the module of the call and the opaque type it stands for; any other type
/// is returned unchanged.
pub fn requalify_rettype(rettype: &Type, module: &str) -> (r: Type)
    requires
        rettype is Opaque ==> exists|k: int| first_module_named(module@, k)
            && spec_capabilities()[k].opaque_types.len() > 0,
    ensures
        match rettype.model() {
            TypeModel::Opaque { name, .. } => exists|k: int, j: int|
                first_module_named(module@, k) && spec_pick_opaque(
                    spec_capabilities()[k].opaque_types,
                    name,
                    j,
                ) && r.model() == (TypeModel::Opaque {
                    module: module@,
                    name: spec_capabilities()[k].opaque_types[j].0,
                    rust_path: spec_capabilities()[k].opaque_types[j].1,
                }),
            _ => r.model() == rettype.model(),
        },
{
    let name = match rettype {
        Type::Opaque { name, .. } => name,
        _ => return rettype.copy(),
    };
    let capability = lookup_module(module);
    let capability: Capability = match capability {
        Some(c) => c,
        None => {
            proof { assert(false); }
            return rettype.copy();
        },
    };
    let ghost k = choose|k: int| first_module_named(module@, k) && capability.model() == spec_capabilities()[k];
    proof {
        assert(capability.model().opaque_types.len() == capability.opaque_types@.len());
    }
    let opaque = match capability.find_opaque(name.as_str()) {
        Some(o) => *o,
        None => capability.opaque_types[0],
    };
    let ghost ots = spec_capabilities()[k].opaque_types;
    let ghost mut jj: int = 0;
    proof {
        assert forall|i: int| 0 <= i < ots.len() implies ots[i] == capability.opaque_types@[i].model() by {
            assert(capability.model().opaque_types[i] == capability.opaque_types@[i].model());
        }
        if exists|i: int| 0 <= i < ots.len() && ots[i].0 == name@ {
            let i0 = choose|i: int| 0 <= i < ots.len() && ots[i].0 == name@;
            assert(capability.opaque_types@[i0].titan_name@ == name@);
            jj = choose|j: int| 0 <= j < capability.opaque_types@.len()
                && opaque == capability.opaque_types@[j]
                && opaque.titan_name@ == name@
                && forall|i: int| 0 <= i < j ==> capability.opaque_types@[i].titan_name@ != name@;
        } else {
            jj = 0;
        }
        assert(spec_pick_opaque(ots, name@, jj));
        assert(opaque.model() == ots[jj]);
    }
    let r = Type::Opaque {
        module: String::from_str(module),
        name: String::from_str(opaque.titan_name),
        rust_path: String::from_str(opaque.rust_path),
    };
    assert(r.model() == (TypeModel::Opaque { module: module@, name: ots[jj].0, rust_path: ots[jj].1 }));
    assert(first_module_named(module@, k));
    assert(rettype.model() matches TypeModel::Opaque { name: n, .. } && n == name@);
    assert(first_module_named(module@, k) && spec_pick_opaque(spec_capabilities()[k].opaque_types, name@, jj)
        && r.model() == (TypeModel::Opaque {
            module: module@,
            name: spec_capabilities()[k].opaque_types[jj].0,
            rust_path: spec_capabilities()[k].opaque_types[jj].1,
        }));
    r
}

/// Name of the variable at the root of a chain of indexing and field
/// accesses (`m[i].campo[j]` has root `m`).
pub open spec fn spec_root_var_name(var: Var) -> Option<Seq<char>>
    decreases var,
{
    match var {
        Var::VarName { name, .. } => Some(name@),
        Var::VarBracket { exp1, .. } => spec_root_exp_var_name(*exp1),
        Var::VarDot { exp, .. } => spec_root_exp_var_name(*exp),
    }
}

pub open spec fn spec_root_exp_var_name(exp: Exp) -> Option<Seq<char>>
    decreases exp,
{
    match exp {
        Exp::ExpVar { var, .. } => spec_root_var_name(*var),
        _ => None,
    }
}

pub fn root_var_name(var: &Var) -> (r: Option<String>)
    ensures
        match r {
            Some(s) => spec_root_var_name(*var) == Some(s@),
            None => spec_root_var_name(*var) is None,
        },
    decreases var,
{
    match var {
        Var::VarName { name, .. } => Some(name.clone()),
        Var::VarBracket { exp1, .. } => root_exp_var_name(&**exp1),
        Var::VarDot { exp, .. } => root_exp_var_name(&**exp),
    }
}

pub fn root_exp_var_name(exp: &Exp) -> (r: Option<String>)
    ensures
        match r {
            Some(s) => spec_root_exp_var_name(*exp) == Some(s@),
            None => spec_root_exp_var_name(*exp) is None,
        },
    decreases exp,
{
    match exp {
        Exp::ExpVar { var, .. } => root_var_name(&**var),
        _ => None,
    }
}

/// The name tested by `nome ~= nil` (or `nil ~= nome`), the only condition
/// that narrows an optional inside an `if` branch.
pub open spec fn spec_presence_test_name(exp: Exp) -> Option<Seq<char>> {
    match exp {
        Exp::ExpBinop { lhs, op, rhs, .. } => if op@ != "~="@ {
            None
        } else {
            match (*lhs, *rhs) {
                (Exp::ExpVar { var, .. }, Exp::ExpNil { .. }) => match *var {
                    Var::VarName { name, .. } => Some(name@),
                    _ => None,
                },
                (Exp::ExpNil { .. }, Exp::ExpVar { var, .. }) => match *var {
                    Var::VarName { name, .. } => Some(name@),
                    _ => None,
                },
                _ => None,
            }
        },
        _ => None,
    }
}

pub fn presence_test_name(exp: &Exp) -> (r: Option<String>)
    ensures
        match r {
            Some(s) => spec_presence_test_name(*exp) == Some(s@),
            None => spec_presence_test_name(*exp) is None,
        },
{
    match exp {
        Exp::ExpBinop { lhs, op, rhs, .. } => {
            if !str_eq(op.as_str(), "~=") {
                return None;
            }
            match (&**lhs, &**rhs) {
                (Exp::ExpVar { var, .. }, Exp::ExpNil { .. }) => match &**var {
                    Var::VarName { name, .. } => Some(name.clone()),
                    _ => None,
                },
                (Exp::ExpNil { .. }, Exp::ExpVar { var, .. }) => match &**var {
                    Var::VarName { name, .. } => Some(name.clone()),
                    _ => None,
                },
                _ => None,
            }
        },
        _ => None,
    }
}

} // verus!
