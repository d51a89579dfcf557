//! Emission of a whole program: the structs of the records, the `extern`
//! blocks of the `foreign function` declarations, the functions, and the
//! entry shim that calls the Titan `main`.
use vstd::prelude::*;
use crate::checker::names::{is_composite, spec_is_composite};
use crate::checker::typed::{TypedProgram, TypedStat, TypedTopLevel};
use crate::codegen::exp::{join_items, lemma_join_items_none, lemma_join_items_push, EmitCtx, EmitModel};
use crate::codegen::names::{
    c_abi_rettype_name, c_abi_type_name, mangle_fn_name, opt_view, rust_param_type_name,
    rust_rettype_name, rust_type_name, spec_c_abi_rettype_name, spec_c_abi_type_name,
    spec_rust_param_type_name, spec_rust_rettype_name, spec_rust_type_name, CodegenError,
};
use crate::codegen::scan::{reads_name, referenced_names, spec_refs_stat, views};
use crate::codegen::stat::{emit_block_stats, spec_block_stats};
use crate::text::{cat, cat3, copy_string};
use crate::types::{models, Type};

verus! {

broadcast use vstd::std_specs::vec::axiom_vec_decreases_to_view;

/// The fields of a record's struct, one `pub` field per line.
pub open spec fn spec_struct_fields(fs: Seq<(String, Type)>) -> Option<Seq<char>>
    decreases fs.len(),
{
    if fs.len() == 0 {
        Some(Seq::empty())
    } else {
        match (spec_struct_fields(fs.drop_last()), spec_rust_type_name(fs.last().1.model())) {
            (Some(f), Some(t)) => Some(f + "    pub "@ + fs.last().0@ + ": "@ + t + ",\n"@),
            _ => None,
        }
    }
}

/// `struct Name { pub field: Type, .. }`: `Clone` (assigning a record
/// copies it), never `Copy`.
pub open spec fn spec_record_struct(name: Seq<char>, fs: Seq<(String, Type)>) -> Option<Seq<char>> {
    match spec_struct_fields(fs) {
        Some(f) => Some("#[derive(Clone, Debug, PartialEq)]\npub struct "@ + name + " {\n"@ + f + "}\n"@),
        None => None,
    }
}

/// A parameter of a `foreign function` with its C type.
pub open spec fn spec_extern_param(p: (String, Type)) -> Option<Seq<char>> {
    match spec_c_abi_type_name(p.1.model()) {
        Some(t) => Some(p.0@ + ": "@ + t),
        None => None,
    }
}

/// The parameters of a `foreign function`.
pub open spec fn spec_extern_params(ps: Seq<(String, Type)>) -> Seq<Option<Seq<char>>> {
    Seq::new(ps.len(), |i: int| spec_extern_param(ps[i]))
}

/// The `extern "C"` block that declares a `foreign function` for the
/// linker, unmangled, with C types.
pub open spec fn spec_foreign_extern(name: Seq<char>, ps: Seq<(String, Type)>, rets: Seq<Type>) -> Option<Seq<char>> {
    match (join_items(spec_extern_params(ps)), spec_c_abi_rettype_name(models(rets))) {
        (Some(p), Some(ret)) => Some(
            "unsafe extern \"C\" {\n    fn "@ + name + "("@ + p + ")"@ + (match ret {
                Some(t) => " -> "@ + t,
                None => Seq::empty(),
            }) + ";\n}\n"@,
        ),
        _ => None,
    }
}

/// Names of the composite parameters, in order.
pub open spec fn composite_params(ps: Seq<(String, Type)>) -> Seq<Seq<char>>
    decreases ps.len(),
{
    if ps.len() == 0 {
        Seq::empty()
    } else {
        composite_params(ps.drop_last()) + if spec_is_composite(ps.last().1.model()) {
            seq![ps.last().0@]
        } else {
            Seq::empty()
        }
    }
}

/// The context in which the body of a function with parameters `ps` is
/// emitted.
pub open spec fn fn_ctx(ps: Seq<(String, Type)>, floats: Seq<(u64, Seq<char>)>) -> EmitModel {
    EmitModel { params: composite_params(ps), floats }
}

/// A parameter in a signature: `_name` when the body never reads it.
pub open spec fn spec_param_decl(p: (String, Type), body: TypedStat) -> Option<Seq<char>> {
    match spec_rust_param_type_name(p.1.model()) {
        Some(t) => Some(
            (if spec_refs_stat(body).contains(p.0@) { p.0@ } else { "_"@ + p.0@ }) + ": "@ + t,
        ),
        None => None,
    }
}

/// The parameters of a function's signature.
pub open spec fn spec_param_decls(ps: Seq<(String, Type)>, body: TypedStat) -> Seq<Option<Seq<char>>> {
    Seq::new(ps.len(), |i: int| spec_param_decl(ps[i], body))
}

/// A Titan function: mangled, `pub` unless `local`, composite parameters
/// by `&mut`, the result type (a tuple for several results) unless there
/// is none, and the body one level in.
pub open spec fn spec_func(
    islocal: bool,
    name: Seq<char>,
    ps: Seq<(String, Type)>,
    rets: Seq<Type>,
    body: TypedStat,
    floats: Seq<(u64, Seq<char>)>,
) -> Option<Seq<char>> {
    match (
        join_items(spec_param_decls(ps, body)),
        spec_rust_rettype_name(models(rets)),
        spec_block_stats(fn_ctx(ps, floats), body, 1),
    ) {
        (Some(p), Some(ret), Some(b)) => Some(
            (if islocal { Seq::empty() } else { "pub "@ }) + "fn "@ + ("titan_"@ + name) + "("@ + p
                + ")"@ + (match ret {
                Some(t) => " -> "@ + t,
                None => Seq::empty(),
            }) + " {\n"@ + b + "}\n"@,
        ),
        _ => None,
    }
}

/// The structs of the records, in program order, each followed by a blank
/// line.
pub open spec fn spec_records(p: Seq<TypedTopLevel>) -> Option<Seq<char>>
    decreases p.len(),
{
    if p.len() == 0 {
        Some(Seq::empty())
    } else {
        match spec_records(p.drop_last()) {
            Some(f) => match p.last() {
                TypedTopLevel::Record { name, fields, .. } => match spec_record_struct(name@, fields@) {
                    Some(s) => Some(f + s + "\n"@),
                    None => None,
                },
                _ => Some(f),
            },
            None => None,
        }
    }
}

/// The `extern` blocks, in program order, each followed by a blank line.
pub open spec fn spec_foreigns(p: Seq<TypedTopLevel>) -> Option<Seq<char>>
    decreases p.len(),
{
    if p.len() == 0 {
        Some(Seq::empty())
    } else {
        match spec_foreigns(p.drop_last()) {
            Some(f) => match p.last() {
                TypedTopLevel::ForeignFunc { name, params, rettypes, .. } => match spec_foreign_extern(
                    name@,
                    params@,
                    rettypes@,
                ) {
                    Some(s) => Some(f + s + "\n"@),
                    None => None,
                },
                _ => Some(f),
            },
            None => None,
        }
    }
}

/// The functions, in program order, each followed by a blank line.
pub open spec fn spec_funcs(p: Seq<TypedTopLevel>, floats: Seq<(u64, Seq<char>)>) -> Option<Seq<char>>
    decreases p.len(),
{
    if p.len() == 0 {
        Some(Seq::empty())
    } else {
        match spec_funcs(p.drop_last(), floats) {
            Some(f) => match p.last() {
                TypedTopLevel::Func { islocal, name, params, rettypes, body, .. } => match spec_func(
                    islocal,
                    name@,
                    params@,
                    rettypes@,
                    *body,
                    floats,
                ) {
                    Some(s) => Some(f + s + "\n"@),
                    None => None,
                },
                _ => Some(f),
            },
            None => None,
        }
    }
}

/// The real `fn main` of the generated program: it hands the command-line
/// arguments to the Titan `main` (mangled `titan_main`) and exits with the
/// code it returns.
pub open spec fn spec_entry_shim() -> Seq<char> {
    "fn main() {\n    let mut args: Vec<String> = std::env::args().skip(1).collect();\n    std::process::exit(titan_main(&mut args) as i32);\n}\n"@
}

/// The whole generated `main.rs`: records, `extern` blocks, functions, then
/// the entry shim.
pub open spec fn spec_generate(p: Seq<TypedTopLevel>, floats: Seq<(u64, Seq<char>)>) -> Option<Seq<char>> {
    match (spec_records(p), spec_foreigns(p), spec_funcs(p, floats)) {
        (Some(r), Some(f), Some(g)) => Some(r + f + g + spec_entry_shim()),
        _ => None,
    }
}

/// Mathematical value of a table of float texts.
pub open spec fn float_models(fs: Seq<(u64, String)>) -> Seq<(u64, Seq<char>)> {
    Seq::new(fs.len(), |i: int| (fs[i].0, fs[i].1@))
}

/// The generated file declares the types first: it starts with the structs
/// of the records, and it ends with the entry shim.
pub proof fn lemma_generate_layout(p: Seq<TypedTopLevel>, floats: Seq<(u64, Seq<char>)>)
    requires
        spec_generate(p, floats) is Some,
    ensures
        spec_generate(p, floats)->0.subrange(0, spec_records(p)->0.len() as int) == spec_records(p)->0,
        spec_generate(p, floats)->0.subrange(
            spec_generate(p, floats)->0.len() - spec_entry_shim().len(),
            spec_generate(p, floats)->0.len() as int,
        ) == spec_entry_shim(),
{
    let r = spec_records(p)->0;
    let f = spec_foreigns(p)->0;
    let g = spec_funcs(p, floats)->0;
    let all = r + f + g + spec_entry_shim();
    assert(all.subrange(0, r.len() as int) =~= r);
    assert(all.subrange(all.len() - spec_entry_shim().len(), all.len() as int) =~= spec_entry_shim());
}

// ---------------------------------------------------------------------

proof fn lemma_records_none(p: Seq<TypedTopLevel>, j: int)
    requires
        0 <= j <= p.len(),
        spec_records(p.subrange(0, j)) is None,
    ensures
        spec_records(p) is None,
    decreases p.len(),
{
    if j == p.len() {
        assert(p.subrange(0, j) =~= p);
    } else {
        assert(p.drop_last().subrange(0, j) =~= p.subrange(0, j));
        lemma_records_none(p.drop_last(), j);
    }
}

proof fn lemma_foreigns_none(p: Seq<TypedTopLevel>, j: int)
    requires
        0 <= j <= p.len(),
        spec_foreigns(p.subrange(0, j)) is None,
    ensures
        spec_foreigns(p) is None,
    decreases p.len(),
{
    if j == p.len() {
        assert(p.subrange(0, j) =~= p);
    } else {
        assert(p.drop_last().subrange(0, j) =~= p.subrange(0, j));
        lemma_foreigns_none(p.drop_last(), j);
    }
}

proof fn lemma_funcs_none(p: Seq<TypedTopLevel>, floats: Seq<(u64, Seq<char>)>, j: int)
    requires
        0 <= j <= p.len(),
        spec_funcs(p.subrange(0, j), floats) is None,
    ensures
        spec_funcs(p, floats) is None,
    decreases p.len(),
{
    if j == p.len() {
        assert(p.subrange(0, j) =~= p);
    } else {
        assert(p.drop_last().subrange(0, j) =~= p.subrange(0, j));
        lemma_funcs_none(p.drop_last(), floats, j);
    }
}

proof fn lemma_struct_fields_none(fs: Seq<(String, Type)>, j: int)
    requires
        0 <= j <= fs.len(),
        spec_struct_fields(fs.subrange(0, j)) is None,
    ensures
        spec_struct_fields(fs) is None,
    decreases fs.len(),
{
    if j == fs.len() {
        assert(fs.subrange(0, j) =~= fs);
    } else {
        assert(fs.drop_last().subrange(0, j) =~= fs.subrange(0, j));
        lemma_struct_fields_none(fs.drop_last(), j);
    }
}

/// The struct of a record (see `spec_record_struct`).
pub fn emit_record_struct(name: &str, fields: &Vec<(String, Type)>) -> (r: Option<String>)
    ensures
        opt_view(r) == spec_record_struct(name@, fields@),
{
    let mut f = String::new();
    let mut i: usize = 0;
    while i < fields.len()
        invariant
            i <= fields@.len(),
            spec_struct_fields(fields@.subrange(0, i as int)) == Some(f@),
        decreases fields@.len() - i,
    {
        proof {
            assert(fields@.subrange(0, i + 1).drop_last() =~= fields@.subrange(0, i as int));
            assert(fields@.subrange(0, i + 1).last() == fields@[i as int]);
        }
        let t = match rust_type_name(&fields[i].1) {
            Some(t) => t,
            None => {
                proof { lemma_struct_fields_none(fields@, i + 1); }
                return None;
            },
        };
        f.append("    pub ");
        f.append(fields[i].0.as_str());
        f.append(": ");
        f.append(t.as_str());
        f.append(",\n");
        i += 1;
    }
    proof { assert(fields@.subrange(0, fields@.len() as int) =~= fields@); }
    let mut s = String::from_str("#[derive(Clone, Debug, PartialEq)]\npub struct ");
    s.append(name);
    s.append(" {\n");
    s.append(f.as_str());
    s.append("}\n");
    Some(s)
}

/// The `extern` block of a `foreign function` (see `spec_foreign_extern`).
pub fn emit_foreign_extern(name: &str, params: &Vec<(String, Type)>, rettypes: &Vec<Type>) -> (r: Option<String>)
    ensures
        opt_view(r) == spec_foreign_extern(name@, params@, rettypes@),
{
    let ghost items = spec_extern_params(params@);
    let mut p = String::new();
    let mut i: usize = 0;
    while i < params.len()
        invariant
            i <= params@.len(),
            items == spec_extern_params(params@),
            items.len() == params@.len(),
            join_items(items.subrange(0, i as int)) == Some(p@),
        decreases params@.len() - i,
    {
        let t = match c_abi_type_name(&params[i].1) {
            Some(t) => t,
            None => {
                proof { lemma_join_items_none(items, i as int); }
                return None;
            },
        };
        let x = cat3(params[i].0.as_str(), ": ", t.as_str());
        proof { lemma_join_items_push(items, i as int, p@, x@); }
        if i > 0 {
            p.append(", ");
        }
        p.append(x.as_str());
        i += 1;
    }
    proof { assert(items.subrange(0, items.len() as int) =~= items); }
    let ret = c_abi_rettype_name(rettypes)?;
    let mut s = String::from_str("unsafe extern \"C\" {\n    fn ");
    s.append(name);
    s.append("(");
    s.append(p.as_str());
    s.append(")");
    let ret_text = match ret {
        Some(t) => cat(" -> ", t.as_str()),
        None => String::new(),
    };
    s.append(ret_text.as_str());
    s.append(";\n}\n");
    Some(s)
}

/// Copies of the composite parameter names, in order.
fn composite_param_names(params: &Vec<(String, Type)>) -> (r: Vec<String>)
    ensures
        views(r@) == composite_params(params@),
{
    let mut r: Vec<String> = Vec::new();
    let mut i: usize = 0;
    while i < params.len()
        invariant
            i <= params@.len(),
            views(r@) == composite_params(params@.subrange(0, i as int)),
        decreases params@.len() - i,
    {
        proof {
            assert(params@.subrange(0, i + 1).drop_last() =~= params@.subrange(0, i as int));
            assert(params@.subrange(0, i + 1).last() == params@[i as int]);
        }
        if is_composite(&params[i].1) {
            let ghost before = r@;
            r.push(copy_string(&params[i].0));
            assert(views(r@) =~= views(before) + seq![params@[i as int].0@]);
        } else {
            assert(views(r@) =~= views(r@) + Seq::<Seq<char>>::empty());
        }
        i += 1;
    }
    proof { assert(params@.subrange(0, params@.len() as int) =~= params@); }
    r
}

/// An owned copy of a table of float texts.
fn copy_floats(fs: &Vec<(u64, String)>) -> (r: Vec<(u64, String)>)
    ensures
        float_models(r@) == float_models(fs@),
{
    let mut r: Vec<(u64, String)> = Vec::new();
    let mut i: usize = 0;
    while i < fs.len()
        invariant
            i <= fs@.len(),
            r@.len() == i,
            forall|j: int| 0 <= j < i ==> #[trigger] r@[j].0 == fs@[j].0 && r@[j].1@ == fs@[j].1@,
        decreases fs@.len() - i,
    {
        r.push((fs[i].0, copy_string(&fs[i].1)));
        i += 1;
    }
    assert(float_models(r@) =~= float_models(fs@));
    r
}

/// A Titan function (see `spec_func`).
pub fn emit_toplevel(
    islocal: bool,
    name: &str,
    params: &Vec<(String, Type)>,
    rettypes: &Vec<Type>,
    body: &TypedStat,
    floats: &Vec<(u64, String)>,
) -> (r: Option<String>)
    ensures
        opt_view(r) == spec_func(islocal, name@, params@, rettypes@, *body, float_models(floats@)),
{
    let used = referenced_names(body);
    let ghost items = spec_param_decls(params@, *body);
    let mut p = String::new();
    let mut i: usize = 0;
    while i < params.len()
        invariant
            i <= params@.len(),
            views(used@) == spec_refs_stat(*body),
            items == spec_param_decls(params@, *body),
            items.len() == params@.len(),
            join_items(items.subrange(0, i as int)) == Some(p@),
        decreases params@.len() - i,
    {
        let t = match rust_param_type_name(&params[i].1) {
            Some(t) => t,
            None => {
                proof { lemma_join_items_none(items, i as int); }
                return None;
            },
        };
        let rust_name = if reads_name(&used, params[i].0.as_str()) {
            copy_string(&params[i].0)
        } else {
            cat("_", params[i].0.as_str())
        };
        let x = cat3(rust_name.as_str(), ": ", t.as_str());
        proof { lemma_join_items_push(items, i as int, p@, x@); }
        if i > 0 {
            p.append(", ");
        }
        p.append(x.as_str());
        i += 1;
    }
    proof { assert(items.subrange(0, items.len() as int) =~= items); }
    let ret = rust_rettype_name(rettypes)?;
    let ctx = EmitCtx { params: composite_param_names(params), floats: copy_floats(floats) };
    proof {
        assert(ctx@.floats =~= float_models(floats@));
        assert(ctx@ == fn_ctx(params@, float_models(floats@)));
    }
    let b = emit_block_stats(body, 1, &ctx)?;
    let mut s = if islocal { String::new() } else { String::from_str("pub ") };
    s.append("fn ");
    s.append(mangle_fn_name(name).as_str());
    s.append("(");
    s.append(p.as_str());
    s.append(")");
    let ret_text = match ret {
        Some(t) => cat(" -> ", t.as_str()),
        None => String::new(),
    };
    s.append(ret_text.as_str());
    s.append(" {\n");
    s.append(b.as_str());
    s.append("}\n");
    Some(s)
}

/// Text of the entry shim (see `spec_entry_shim`).
fn entry_shim() -> (r: &'static str)
    ensures
        r@ == spec_entry_shim(),
{
    "fn main() {\n    let mut args: Vec<String> = std::env::args().skip(1).collect();\n    std::process::exit(titan_main(&mut args) as i32);\n}\n"
}

/// Generates the whole `main.rs` for a checked program (see
/// `spec_generate`).  `floats` gives the Rust text of float literals by bit
/// pattern; a literal without an entry is written `f64::from_bits(N)`.
pub fn generate(program: &TypedProgram, floats: &Vec<(u64, String)>) -> (r: Result<String, CodegenError>)
    ensures
        match r {
            Ok(s) => spec_generate(program@, float_models(floats@)) == Some(s@),
            Err(_) => spec_generate(program@, float_models(floats@)) is None,
        },
{
    let failed = CodegenError(String::from_str("construção fora do que o gerador de código sabe emitir"));
    let mut records = String::new();
    let mut i: usize = 0;
    while i < program.len()
        invariant
            i <= program@.len(),
            spec_records(program@.subrange(0, i as int)) == Some(records@),
        decreases program@.len() - i,
    {
        proof {
            assert(program@.subrange(0, i + 1).drop_last() =~= program@.subrange(0, i as int));
            assert(program@.subrange(0, i + 1).last() == program@[i as int]);
        }
        match &program[i] {
            TypedTopLevel::Record { name, fields, .. } => {
                let s = match emit_record_struct(name.as_str(), fields) {
                    Some(s) => s,
                    None => {
                        proof { lemma_records_none(program@, i + 1); }
                        return Err(failed);
                    },
                };
                records.append(s.as_str());
                records.append("\n");
            },
            _ => {},
        }
        i += 1;
    }
    proof { assert(program@.subrange(0, program@.len() as int) =~= program@); }
    let mut foreigns = String::new();
    let mut i: usize = 0;
    while i < program.len()
        invariant
            i <= program@.len(),
            spec_foreigns(program@.subrange(0, i as int)) == Some(foreigns@),
        decreases program@.len() - i,
    {
        proof {
            assert(program@.subrange(0, i + 1).drop_last() =~= program@.subrange(0, i as int));
            assert(program@.subrange(0, i + 1).last() == program@[i as int]);
        }
        match &program[i] {
            TypedTopLevel::ForeignFunc { name, params, rettypes, .. } => {
                let s = match emit_foreign_extern(name.as_str(), params, rettypes) {
                    Some(s) => s,
                    None => {
                        proof { lemma_foreigns_none(program@, i + 1); }
                        return Err(failed);
                    },
                };
                foreigns.append(s.as_str());
                foreigns.append("\n");
            },
            _ => {},
        }
        i += 1;
    }
    let mut funcs = String::new();
    let mut i: usize = 0;
    while i < program.len()
        invariant
            i <= program@.len(),
            spec_funcs(program@.subrange(0, i as int), float_models(floats@)) == Some(funcs@),
        decreases program@.len() - i,
    {
        proof {
            assert(program@.subrange(0, i + 1).drop_last() =~= program@.subrange(0, i as int));
            assert(program@.subrange(0, i + 1).last() == program@[i as int]);
        }
        match &program[i] {
            TypedTopLevel::Func { islocal, name, params, rettypes, body, .. } => {
                let s = match emit_toplevel(*islocal, name.as_str(), params, rettypes, &**body, floats) {
                    Some(s) => s,
                    None => {
                        proof { lemma_funcs_none(program@, float_models(floats@), i + 1); }
                        return Err(failed);
                    },
                };
                funcs.append(s.as_str());
                funcs.append("\n");
            },
            _ => {},
        }
        i += 1;
    }
    let mut out = records;
    out.append(foreigns.as_str());
    out.append(funcs.as_str());
    out.append(entry_shim());
    Ok(out)
}

} // verus!
