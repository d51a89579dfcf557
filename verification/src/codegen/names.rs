//! How Titan types, names and operators are spelled in the generated Rust.
//!
//! | Titan | Rust |
//! |---|---|
//! | `integer` | `i64` |
//! | `float` | `f64` |
//! | `boolean` | `bool` |
//! | `string` | `String` |
//! | `nil` | `()` |
//! | `{T}` | `Vec<T>` |
//! | `{K: V}` | `HashMap<K, V>` |
//! | `record Nome` | `Nome` |
//! | `T?` | `Option<T>` |
//! | `value` | `titan_runtime::Value` |
//!
//! Composite parameters are passed as `&mut T`; at the C boundary of a
//! `foreign function`, `string` is `*const c_char`.
use vstd::prelude::*;
use crate::checker::names::{is_composite, spec_binop_from_source, spec_is_composite};
use crate::checker::records::spec_reserved_rust_name;
use crate::checker::typed::BinOp;
use crate::text::{cat, cat3};
use crate::types::{models, Type, TypeModel};

verus! {

/// The characters of an optional piece of text.
pub open spec fn opt_view(r: Option<String>) -> Option<Seq<char>> {
    match r {
        Some(s) => Some(s@),
        None => None,
    }
}

/// A construct that the checker accepts but this back end cannot emit.
#[derive(Debug)]
pub struct CodegenError(pub String);

impl CodegenError {
    /// The error's message.
    pub fn describe(&self) -> (r: String)
        ensures
            r@ == self.0@,
    {
        self.0.clone()
    }
}

/// Rust spelling of a type in any position; `None` for the types that have
/// no value representation (a module name, a function type).
pub open spec fn spec_rust_type_name(t: TypeModel) -> Option<Seq<char>>
    decreases t,
{
    match t {
        TypeModel::Nil => Some("()"@),
        TypeModel::Boolean => Some("bool"@),
        TypeModel::Integer => Some("i64"@),
        TypeModel::Float => Some("f64"@),
        TypeModel::String => Some("String"@),
        TypeModel::Array { elem } => match spec_rust_type_name(*elem) {
            Some(e) => Some("Vec<"@ + e + ">"@),
            None => None,
        },
        TypeModel::Dict { keys, values } => match spec_rust_type_name(*keys) {
            Some(k) => match spec_rust_type_name(*values) {
                Some(v) => Some("std::collections::HashMap<"@ + k + ", "@ + v + ">"@),
                None => None,
            },
            None => None,
        },
        TypeModel::Record { name, .. } => Some(name),
        TypeModel::Sum { name, .. } => Some(name),
        TypeModel::Option { base } => match spec_rust_type_name(*base) {
            Some(b) => Some("Option<"@ + b + ">"@),
            None => None,
        },
        TypeModel::Value => Some("titan_runtime::Value"@),
        TypeModel::Opaque { rust_path, .. } => Some(rust_path),
        TypeModel::Invalid => None,
        TypeModel::Function { .. } => None,
    }
}

/// Rust spelling of a type (see `spec_rust_type_name`).
pub fn rust_type_name(ty: &Type) -> (r: Option<String>)
    ensures
        match r {
            Some(s) => spec_rust_type_name(ty.model()) == Some(s@),
            None => spec_rust_type_name(ty.model()) is None,
        },
    decreases ty,
{
    match ty {
        Type::Nil => Some(String::from_str("()")),
        Type::Boolean => Some(String::from_str("bool")),
        Type::Integer => Some(String::from_str("i64")),
        Type::Float => Some(String::from_str("f64")),
        Type::String => Some(String::from_str("String")),
        Type::Array { elem } => {
            let e = rust_type_name(&**elem)?;
            Some(cat3("Vec<", e.as_str(), ">"))
        },
        Type::Dict { keys, values } => {
            let k = rust_type_name(&**keys)?;
            let v = rust_type_name(&**values)?;
            let mut s = cat3("std::collections::HashMap<", k.as_str(), ", ");
            s.append(v.as_str());
            s.append(">");
            Some(s)
        },
        Type::Record { name, .. } => Some(name.clone()),
        Type::Sum { name, .. } => Some(name.clone()),
        Type::Option { base } => {
            let b = rust_type_name(&**base)?;
            Some(cat3("Option<", b.as_str(), ">"))
        },
        Type::Value => Some(String::from_str("titan_runtime::Value")),
        Type::Opaque { rust_path, .. } => Some(rust_path.clone()),
        Type::Invalid => None,
        Type::Function { .. } => None,
    }
}

/// Rust spelling of a parameter's type: composites are `&mut T`.
pub open spec fn spec_rust_param_type_name(t: TypeModel) -> Option<Seq<char>> {
    match spec_rust_type_name(t) {
        Some(s) => Some(if spec_is_composite(t) { "&mut "@ + s } else { s }),
        None => None,
    }
}

/// Rust spelling of a parameter's type (see `spec_rust_param_type_name`).
pub fn rust_param_type_name(ty: &Type) -> (r: Option<String>)
    ensures
        match r {
            Some(s) => spec_rust_param_type_name(ty.model()) == Some(s@),
            None => spec_rust_param_type_name(ty.model()) is None,
        },
{
    let t = rust_type_name(ty)?;
    if is_composite(ty) {
        Some(cat("&mut ", t.as_str()))
    } else {
        Some(t)
    }
}

/// Rust spelling of a variant field: boxed when the field is.
pub fn rust_field_type_name(ty: &Type, boxeado: bool) -> (r: Option<String>)
    ensures
        match r {
            Some(s) => match spec_rust_type_name(ty.model()) {
                Some(t) => s@ == (if boxeado { "Box<"@ + t + ">"@ } else { t }),
                None => false,
            },
            None => spec_rust_type_name(ty.model()) is None,
        },
{
    let t = rust_type_name(ty)?;
    if boxeado {
        Some(cat3("Box<", t.as_str(), ">"))
    } else {
        Some(t)
    }
}

/// The Rust spellings of a list of types joined by `", "`.
pub open spec fn spec_join_types(ts: Seq<TypeModel>) -> Option<Seq<char>>
    decreases ts.len(),
{
    if ts.len() == 0 {
        Some(Seq::empty())
    } else if ts.len() == 1 {
        spec_rust_type_name(ts[0])
    } else {
        match spec_join_types(ts.drop_last()) {
            Some(front) => match spec_rust_type_name(ts.last()) {
                Some(l) => Some(front + ", "@ + l),
                None => None,
            },
            None => None,
        }
    }
}

/// The result type of a signature: nothing for no result or a single
/// `nil`, the type for one result, a tuple for several.
pub open spec fn spec_rust_rettype_name(rets: Seq<TypeModel>) -> Option<Option<Seq<char>>> {
    if rets.len() == 0 {
        Some(None)
    } else if rets.len() == 1 && rets[0] is Nil {
        Some(None)
    } else if rets.len() == 1 {
        match spec_rust_type_name(rets[0]) {
            Some(s) => Some(Some(s)),
            None => None,
        }
    } else {
        match spec_join_types(rets) {
            Some(s) => Some(Some("("@ + s + ")"@)),
            None => None,
        }
    }
}

/// The Rust spellings of `ts` joined by `", "`.
fn join_types(ts: &Vec<Type>) -> (r: Option<String>)
    ensures
        match r {
            Some(s) => spec_join_types(models(ts@)) == Some(s@),
            None => spec_join_types(models(ts@)) is None,
        },
{
    let ghost ms = models(ts@);
    let mut out = String::new();
    let mut i: usize = 0;
    while i < ts.len()
        invariant
            i <= ts@.len(),
            ms == models(ts@),
            spec_join_types(ms.subrange(0, i as int)) == Some(out@),
        decreases ts@.len() - i,
    {
        let t = match rust_type_name(&ts[i]) {
            Some(t) => t,
            None => {
                proof {
                    assert(ms.subrange(0, i + 1).drop_last() =~= ms.subrange(0, i as int));
                    lemma_join_none(ms, i as int);
                }
                return None;
            },
        };
        proof {
            assert(ms.subrange(0, i + 1).drop_last() =~= ms.subrange(0, i as int));
            assert(ms.subrange(0, i + 1).last() == ms[i as int]);
        }
        if i > 0 {
            out.append(", ");
        } else {
            assert(ms.subrange(0, 1) =~= seq![ms[0]]);
        }
        out.append(t.as_str());
        i += 1;
    }
    assert(ms.subrange(0, ts@.len() as int) =~= ms);
    Some(out)
}

/// Once an element has no spelling, no longer prefix has one.
proof fn lemma_join_none(ms: Seq<TypeModel>, i: int)
    requires
        0 <= i < ms.len(),
        spec_rust_type_name(ms[i]) is None,
    ensures
        spec_join_types(ms) is None,
    decreases ms.len(),
{
    if ms.len() == 1 {
    } else if i == ms.len() - 1 {
    } else {
        assert(ms.drop_last()[i] == ms[i]);
        lemma_join_none(ms.drop_last(), i);
    }
}

/// The result type of a signature (see `spec_rust_rettype_name`); `None`
/// when a result type has no spelling.
pub fn rust_rettype_name(rettypes: &Vec<Type>) -> (r: Option<Option<String>>)
    ensures
        match r {
            Some(Some(s)) => spec_rust_rettype_name(models(rettypes@)) == Some(Some(s@)),
            Some(None) => spec_rust_rettype_name(models(rettypes@)) == Some(None::<Seq<char>>),
            None => spec_rust_rettype_name(models(rettypes@)) is None,
        },
{
    if rettypes.len() == 0 {
        return Some(None);
    }
    if rettypes.len() == 1 {
        if matches!(rettypes[0], Type::Nil) {
            return Some(None);
        }
        let t = rust_type_name(&rettypes[0])?;
        return Some(Some(t));
    }
    let joined = join_types(rettypes)?;
    Some(Some(cat3("(", joined.as_str(), ")")))
}

/// Spelling of a type at the C boundary: scalars as themselves, `string` as
/// a C string pointer; nothing else crosses.
pub open spec fn spec_c_abi_type_name(t: TypeModel) -> Option<Seq<char>> {
    match t {
        TypeModel::Integer => Some("i64"@),
        TypeModel::Float => Some("f64"@),
        TypeModel::Boolean => Some("bool"@),
        TypeModel::String => Some("*const std::os::raw::c_char"@),
        _ => None,
    }
}

/// Spelling of a type at the C boundary (see `spec_c_abi_type_name`).
pub fn c_abi_type_name(ty: &Type) -> (r: Option<String>)
    ensures
        match r {
            Some(s) => spec_c_abi_type_name(ty.model()) == Some(s@),
            None => spec_c_abi_type_name(ty.model()) is None,
        },
{
    match ty {
        Type::Integer => Some(String::from_str("i64")),
        Type::Float => Some(String::from_str("f64")),
        Type::Boolean => Some(String::from_str("bool")),
        Type::String => Some(String::from_str("*const std::os::raw::c_char")),
        _ => None,
    }
}

/// At the C boundary every scalar keeps the Rust spelling it has everywhere
/// else (a Titan `float` is an `f64`, C's `double`, on both sides); only
/// `string` is spelled otherwise, and no other type crosses.
pub proof fn law_c_abi_scalars_keep_rust_spelling(t: TypeModel)
    ensures
        (t is Integer || t is Float || t is Boolean) ==> spec_c_abi_type_name(t)
            == spec_rust_type_name(t),
        spec_c_abi_type_name(t) is Some <==> (t is Integer || t is Float || t is Boolean
            || t is String),
{
}

/// A `foreign function` with no result or with one scalar result declares,
/// at the C boundary, the result that its Rust signature would have.
pub proof fn law_c_abi_scalar_result_keeps_rust_spelling(rets: Seq<TypeModel>)
    requires
        rets.len() == 0 || (rets.len() == 1 && (rets[0] is Nil || rets[0] is Integer
            || rets[0] is Float || rets[0] is Boolean)),
    ensures
        spec_c_abi_rettype_name(rets) == spec_rust_rettype_name(rets),
{
}

/// Result of a `foreign function` at the C boundary: nothing (C `void`)
/// for no result or a single `nil`, else its C spelling; several results
/// do not cross.
pub open spec fn spec_c_abi_rettype_name(rets: Seq<TypeModel>) -> Option<Option<Seq<char>>> {
    if rets.len() == 0 || (rets.len() == 1 && rets[0] is Nil) {
        Some(None)
    } else if rets.len() == 1 {
        match spec_c_abi_type_name(rets[0]) {
            Some(s) => Some(Some(s)),
            None => None,
        }
    } else {
        None
    }
}

/// Result of a `foreign function` at the C boundary (see
/// `spec_c_abi_rettype_name`).
pub fn c_abi_rettype_name(rettypes: &Vec<Type>) -> (r: Option<Option<String>>)
    ensures
        match r {
            Some(Some(s)) => spec_c_abi_rettype_name(models(rettypes@)) == Some(Some(s@)),
            Some(None) => spec_c_abi_rettype_name(models(rettypes@)) == Some(None::<Seq<char>>),
            None => spec_c_abi_rettype_name(models(rettypes@)) is None,
        },
        rettypes@.len() == 0 ==> r == Some(None::<String>),
        rettypes@.len() == 1 && rettypes@[0] is Nil ==> r == Some(None::<String>),
        rettypes@.len() == 1 && !(rettypes@[0] is Nil) ==> match r {
            Some(Some(s)) => spec_c_abi_type_name(rettypes@[0].model()) == Some(s@),
            Some(None) => false,
            None => spec_c_abi_type_name(rettypes@[0].model()) is None,
        },
        rettypes@.len() > 1 ==> r is None,
{
    if rettypes.len() == 0 {
        return Some(None);
    }
    if rettypes.len() > 1 {
        return None;
    }
    if matches!(rettypes[0], Type::Nil) {
        return Some(None);
    }
    let t = c_abi_type_name(&rettypes[0])?;
    Some(Some(t))
}

/// Name of a Titan function in the generated Rust: prefixed, so that it
/// collides neither with the entry `fn main` nor with Rust keywords.
pub fn mangle_fn_name(name: &str) -> (r: String)
    ensures
        r@ == "titan_"@ + name@,
{
    cat("titan_", name)
}

/// Name of the `&mut Option<T>` alias that holds the outer variable while
/// a narrowing branch shadows it.
pub fn alias_opcional(nome: &str) -> (r: String)
    ensures
        r@ == "titan_opt_"@ + nome@,
{
    cat("titan_opt_", nome)
}

/// Pattern bound by the iterator of a `for`-in for one loop name: the
/// internal name when the body uses the variable, `_` when it does not.
pub fn forin_pattern(name: &str, usado: bool) -> (r: String)
    ensures
        r@ == (if usado { "titan_forin_"@ + name@ } else { "_"@ }),
{
    if usado {
        cat("titan_forin_", name)
    } else {
        String::from_str("_")
    }
}

/// Rust operator for a binary operator that has one.  `^` (power), `//`
/// (floor division) and the shifts have none and are emitted as calls;
/// Titan's binary `~` (xor) is Rust's `^`, and `~=` is `!=`.
pub open spec fn spec_binop_symbol(op: BinOp) -> Seq<char> {
    match op {
        BinOp::Add => "+"@,
        BinOp::Sub => "-"@,
        BinOp::Mul => "*"@,
        BinOp::Div => "/"@,
        BinOp::Mod => "%"@,
        BinOp::Eq => "=="@,
        BinOp::Ne => "!="@,
        BinOp::Lt => "<"@,
        BinOp::Gt => ">"@,
        BinOp::Le => "<="@,
        BinOp::Ge => ">="@,
        BinOp::And => "&&"@,
        BinOp::Or => "||"@,
        BinOp::BAnd => "&"@,
        BinOp::BOr => "|"@,
        BinOp::BXor => "^"@,
        _ => Seq::empty(),
    }
}

/// Rust operator for a binary operator (see `spec_binop_symbol`).
pub fn binop_symbol(op: BinOp) -> (r: &'static str)
    requires
        !(op is Pow || op is IDiv || op is Shl || op is Shr),
    ensures
        r@ == spec_binop_symbol(op),
{
    match op {
        BinOp::Add => "+",
        BinOp::Sub => "-",
        BinOp::Mul => "*",
        BinOp::Div => "/",
        BinOp::Mod => "%",
        BinOp::Eq => "==",
        BinOp::Ne => "!=",
        BinOp::Lt => "<",
        BinOp::Gt => ">",
        BinOp::Le => "<=",
        BinOp::Ge => ">=",
        BinOp::And => "&&",
        BinOp::Or => "||",
        BinOp::BAnd => "&",
        BinOp::BOr => "|",
        BinOp::BXor => "^",
        _ => "",
    }
}

/// How Rust writes the operator that Titan writes `s`: with the same
/// characters, except `~=`, `and`, `or` and binary `~`, which Rust writes
/// `!=`, `&&`, `||` and `^`.
pub open spec fn rust_operator_spelling(s: Seq<char>) -> Seq<char> {
    if s == "~="@ {
        "!="@
    } else if s == "and"@ {
        "&&"@
    } else if s == "or"@ {
        "||"@
    } else if s == "~"@ {
        "^"@
    } else {
        s
    }
}

/// A binary operator read from the source and emitted with a Rust operator
/// keeps its meaning: the Rust operator written for it is the Rust spelling
/// of the very text it was read from.  (`^`, `//`, `<<` and `>>` have no
/// Rust operator and are emitted as calls.)
pub proof fn law_binop_emitted_as_written(s: Seq<char>)
    requires
        spec_binop_from_source(s) is Some,
        s != "^"@,
        s != "//"@,
        s != "<<"@,
        s != ">>"@,
    ensures
        spec_binop_symbol(spec_binop_from_source(s)->0) == rust_operator_spelling(s),
{
    reveal_strlit("+");
    reveal_strlit("-");
    reveal_strlit("*");
    reveal_strlit("/");
    reveal_strlit("%");
    reveal_strlit("^");
    reveal_strlit("==");
    reveal_strlit("~=");
    reveal_strlit("<");
    reveal_strlit(">");
    reveal_strlit("<=");
    reveal_strlit(">=");
    reveal_strlit("and");
    reveal_strlit("or");
    reveal_strlit("//");
    reveal_strlit("&");
    reveal_strlit("|");
    reveal_strlit("~");
    reveal_strlit("<<");
    reveal_strlit(">>");
    reveal_strlit("!=");
    reveal_strlit("&&");
    reveal_strlit("||");
}

/// A name that has no `<` cannot head a generic whose head is another name
/// without `<`: `n<..` begins `h<..` only when `n` is `h`.
proof fn lemma_generic_head(h: Seq<char>, rest: Seq<char>, n: Seq<char>)
    requires
        !h.contains('<'),
        !n.contains('<'),
        (n + "<"@).is_prefix_of(h + "<"@ + rest),
    ensures
        n == h,
{
    reveal_strlit("<");
    let p = n + "<"@;
    let s = h + "<"@ + rest;
    assert(p[n.len() as int] == s[n.len() as int]);
    if n.len() < h.len() {
        assert(h[n.len() as int] == '<');
    } else if n.len() > h.len() {
        assert(p[h.len() as int] == s[h.len() as int]);
        assert(n[h.len() as int] == '<');
    } else {
        assert forall|i: int| 0 <= i < n.len() implies n[i] == h[i] by {
            assert(p[i] == s[i]);
        }
        assert(n =~= h);
    }
}

/// The Rust types that the generated code writes for Titan's own types are
/// never the `struct` of a record whose name is not reserved: such a name
/// (an identifier, so without `<`) is neither the `String` of strings nor
/// the head of the `Vec<..>` of arrays, the `Option<..>` of optionals or the
/// `Box<..>` of boxed fields.
pub proof fn law_unreserved_names_are_not_generated_types(n: Seq<char>, t: TypeModel)
    requires
        !spec_reserved_rust_name(n),
        !n.contains('<'),
    ensures
        spec_rust_type_name(TypeModel::String) != Some(n),
        spec_rust_type_name(TypeModel::Array { elem: Box::new(t) }) matches Some(s) ==> !(n
            + "<"@).is_prefix_of(s),
        spec_rust_type_name(TypeModel::Option { base: Box::new(t) }) matches Some(s) ==> !(n
            + "<"@).is_prefix_of(s),
        spec_rust_type_name(t) matches Some(s) ==> !(n + "<"@).is_prefix_of("Box<"@ + s + ">"@),
{
    reveal_strlit("<");
    reveal_strlit("Vec");
    reveal_strlit("Vec<");
    reveal_strlit("Option");
    reveal_strlit("Option<");
    reveal_strlit("Box");
    reveal_strlit("Box<");
    assert("Vec<"@ =~= "Vec"@ + "<"@);
    assert("Option<"@ =~= "Option"@ + "<"@);
    assert("Box<"@ =~= "Box"@ + "<"@);
    assert(!"Vec"@.contains('<')) by {
        assert forall|i: int| 0 <= i < "Vec"@.len() implies "Vec"@[i] != '<' by {}
    }
    assert(!"Option"@.contains('<')) by {
        assert forall|i: int| 0 <= i < "Option"@.len() implies "Option"@[i] != '<' by {}
    }
    assert(!"Box"@.contains('<')) by {
        assert forall|i: int| 0 <= i < "Box"@.len() implies "Box"@[i] != '<' by {}
    }
    if let Some(e) = spec_rust_type_name(t) {
        let rest = e + ">"@;
        assert("Vec<"@ + e + ">"@ =~= "Vec"@ + "<"@ + rest);
        assert("Option<"@ + e + ">"@ =~= "Option"@ + "<"@ + rest);
        assert("Box<"@ + e + ">"@ =~= "Box"@ + "<"@ + rest);
        if (n + "<"@).is_prefix_of("Vec"@ + "<"@ + rest) {
            lemma_generic_head("Vec"@, rest, n);
        }
        if (n + "<"@).is_prefix_of("Option"@ + "<"@ + rest) {
            lemma_generic_head("Option"@, rest, n);
        }
        if (n + "<"@).is_prefix_of("Box"@ + "<"@ + rest) {
            lemma_generic_head("Box"@, rest, n);
        }
    }
}

/// The record names that Rust would read as one of its own types:
/// exactly `String`, `Vec`, `Option`, `Box` and `Result`.
pub proof fn law_reserved_names(n: Seq<char>)
    ensures
        spec_reserved_rust_name(n) <==> set!["String"@, "Vec"@, "Option"@, "Box"@, "Result"@].contains(n),
{
}

/// Types whose values own a buffer, and so are cloned where a copy of a
/// place is stored: the composites and the enum types.
pub open spec fn spec_valor_com_buffer_proprio(t: TypeModel) -> bool {
    spec_is_composite(t) || t is Sum
}

pub fn valor_com_buffer_proprio(ty: &Type) -> (r: bool)
    ensures
        r == spec_valor_com_buffer_proprio(ty.model()),
{
    is_composite(ty) || matches!(ty, Type::Sum { .. })
}

/// Appends `depth` levels of indentation (four spaces each).
pub fn indent(out: &mut String, depth: usize)
    ensures
        final(out)@ == old(out)@ + spec_indent(depth as nat),
{
    let mut i: usize = 0;
    while i < depth
        invariant
            i <= depth,
            out@ == old(out)@ + spec_indent(i as nat),
        decreases depth - i,
    {
        out.append("    ");
        proof {
            assert(spec_indent((i + 1) as nat) == spec_indent(i as nat) + "    "@);
            assert(old(out)@ + spec_indent(i as nat) + "    "@ =~= old(out)@ + spec_indent((i + 1) as nat));
        }
        i += 1;
    }
}

/// The indentation of `depth` levels.
pub fn indent_text(depth: usize) -> (r: String)
    ensures
        r@ == spec_indent(depth as nat),
{
    let mut s = String::new();
    indent(&mut s, depth);
    assert(s@ =~= spec_indent(depth as nat));
    s
}

/// `depth` levels of indentation.
pub open spec fn spec_indent(depth: nat) -> Seq<char>
    decreases depth,
{
    if depth == 0 {
        Seq::empty()
    } else {
        spec_indent((depth - 1) as nat) + "    "@
    }
}

} // verus!
