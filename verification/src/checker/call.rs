//! Typing of names, indexing, field access and calls.
use vstd::prelude::*;
use crate::ast::{spec_exp_loc, Args, Exp, Loc, Var};
use crate::capabilities::{
    first_module_named, lemma_opaque_results_have_types, lookup_module, spec_capabilities,
    Capability,
};
use crate::checker::exp::{
    args_of, call_args_typing, exp_typing, receiver_typing, typed_callee, lemma_exp_typing_frame, lemma_widened_value_typing, typed_call_args, value_typing,
    var_typing,
};
use crate::checker::names::{is_composite, requalify_rettype, root_var_name, type_name_of};
use crate::checker::state::{is_table_capability, Checker};
use crate::checker::symtab::{lemma_latest_is_entry, SymbolKind};
use crate::checker::typed::{Callee, TypedExp, TypedExpKind};
use crate::checker::verdict::{
    accept, accept_args, accept_var, composite_names, errors_view, fn_callee_type, index_verdict, is_operator_exp,
    first_field, lemma_accept_args_index, operand_name, widened_type, lemma_errors_view_push, lemma_push_is_concat,
    lemma_typed_verdict_has_no_errors, name_verdict, typed_name,
};
use crate::named::{contains_str, find_named, has_name};
use crate::text::{cat, cat3, cat5, usize_to_string};
use crate::types::{compatible_spec, copy_types, field_models, models, Type, TypeModel};

verus! {

broadcast use vstd::std_specs::vec::axiom_vec_decreases_to_view;

/// `n` was declared by `foreign function`.
pub open spec fn is_foreign(c: Checker, n: Seq<char>) -> bool {
    exists|k: int| 0 <= k < c.foreigns@.len() && c.foreigns@[k]@ == n
}

/// `n` resolves in `c` to a function with this signature.
pub open spec fn fn_symbol(c: Checker, n: Seq<char>, params: Seq<TypeModel>, rets: Seq<TypeModel>) -> bool {
    match c.st.resolve(n) {
        Some(s) => s.ty.model() == (TypeModel::Function { params, rettypes: rets }),
        None => false,
    }
}

/// Entry `j` of module `k` of the capability table is the function or
/// method `name` (of the opaque type `recv`, for a method) with these
/// parameters.
pub open spec fn table_entry(
    k: int,
    j: int,
    recv: Option<Seq<char>>,
    name: Seq<char>,
    params: Seq<TypeModel>,
) -> bool {
    &&& 0 <= j < spec_capabilities()[k].functions.len()
    &&& spec_capabilities()[k].functions[j].receiver == recv
    &&& spec_capabilities()[k].functions[j].titan_name == name
    &&& spec_capabilities()[k].functions[j].params == params
}

/// The callee of a checked call has these parameter and result types: a
/// function in scope (a `foreign function` exactly when declared so), a
/// function of an imported module, or a method of the receiver's opaque
/// type; the last two have one result.
pub open spec fn callee_signature(
    c: Checker,
    callee: Callee,
    params: Seq<TypeModel>,
    rets: Seq<TypeModel>,
) -> bool {
    match callee {
        Callee::Direct(n) => !is_foreign(c, n@) && fn_symbol(c, n@, params, rets),
        Callee::Foreign(n) => is_foreign(c, n@) && fn_symbol(c, n@, params, rets),
        Callee::Module { module, name } => rets.len() == 1 && exists|k: int, j: int|
            first_module_named(module@, k) && #[trigger] table_entry(k, j, None, name@, params),
        Callee::Method { recv, module, name } => rets.len() == 1 && match recv.ty.model() {
            TypeModel::Opaque { module: m, name: tn, .. } => m == module@ && exists|k: int, j: int|
                first_module_named(module@, k) && #[trigger] table_entry(k, j, Some(tn), name@, params),
            _ => false,
        },
    }
}

/// The argument list of a call expression.
pub open spec fn call_args(call: Exp) -> Seq<Exp> {
    match call {
        Exp::ExpCall { args, .. } => match args {
            Args::ArgsFunc { args, .. } => args@,
            Args::ArgsMethod { args, .. } => args@,
        },
        _ => Seq::empty(),
    }
}

/// A checked call: its callee has a signature whose parameters match the
/// arguments one for one, each argument compatible with its parameter, and
/// the call has the type of its first result (`nil` when there is none).
pub open spec fn call_typing(c: Checker, call: Exp, te: TypedExp, rets: Seq<TypeModel>) -> bool {
    &&& te.loc == spec_exp_loc(call)
    &&& te.ty.model() == (if rets.len() > 0 { rets[0] } else { TypeModel::Nil })
    &&& match te.kind {
        TypedExpKind::Call { callee, args } => exists|params: Seq<TypeModel>|
            #[trigger] callee_signature(c, callee, params, rets) && args@.len() == params.len()
                && args@.len() == call_args(call).len() && forall|i: int|
                0 <= i < params.len() ==> compatible_spec(params[i], #[trigger] args@[i].ty.model()),
        _ => false,
    }
}

/// A module function or a method found in a table capability has the
/// parameters of the corresponding table entry.
proof fn lemma_capability_entry(c: Capability, k: int, f: crate::capabilities::CapabilityFn, j: int)
    requires
        0 <= k < spec_capabilities().len(),
        c.model() == spec_capabilities()[k],
        0 <= j < c.functions@.len(),
        f == c.functions@[j],
    ensures
        table_entry(
            k,
            j,
            match f.receiver {
                Some(r) => Some(r@),
                None => None,
            },
            f.titan_name@,
            models(f.params@),
        ),
        f.rettype.model() == spec_capabilities()[k].functions[j].rettype,
{
    assert(c.model().functions[j] == f.model());
}

/// The name of the imported module that `exp` denotes, if it is a bare
/// name declared as a module.
pub open spec fn module_base(c: Checker, exp: Exp) -> Option<Seq<char>> {
    match exp {
        Exp::ExpVar { var, .. } => match *var {
            Var::VarName { name, .. } => match c.st.resolve(name@) {
                Some(s) => if s.kind is Module {
                    Some(name@)
                } else {
                    None
                },
                None => None,
            },
            _ => None,
        },
        _ => None,
    }
}

impl Checker {
    /// The module a `module.member` base names: `Some` exactly when `exp`
    /// is a name declared as an imported module.
    pub fn dot_base_module(&self, exp: &Exp) -> (r: Option<String>)
        ensures
            match r {
                Some(n) => module_base(*self, *exp) == Some(n@),
                None => module_base(*self, *exp) is None,
            },
    {
        let var = match exp {
            Exp::ExpVar { var, .. } => &**var,
            _ => return None,
        };
        let name = match var {
            Var::VarName { name, .. } => name,
            _ => return None,
        };
        match self.st.find_symbol(name.as_str()) {
            Some(s) => match &s.kind {
                SymbolKind::Module { .. } => Some(name.clone()),
                _ => None,
            },
            None => None,
        }
    }

    /// A name, an index or a field access in a position where it is read.
    #[verifier::loop_isolation(false)]
    pub fn check_var(&mut self, var: &Var) -> (r: Option<TypedExp>)
        requires
            old(self).wf(),
        ensures
            old(self).exp_step(*final(self)),
            r is None ==> final(self).errors@.len() > old(self).errors@.len(),
            r matches Some(te) ==> var_typing(*old(self), *var, te),
            var matches Var::VarName { loc, name } ==> {
                let v = name_verdict(old(self).st, *loc, name@);
                &&& errors_view(final(self).errors@) == errors_view(old(self).errors@) + v.1
                &&& r is Some <==> v.0 is Some
                &&& r matches Some(t) ==> v.0 == Some(t.ty.model()) && t.loc == *loc && typed_name(t) == Some(name@)
            },
            accept_var(old(self).st, *var) matches Some(t) ==> r matches Some(te) && te.ty.model() == t && errors_view(
                final(self).errors@,
            ) == errors_view(old(self).errors@),
            var matches Var::VarBracket { exp1, exp2, .. } ==> (is_operator_exp(**exp1) && is_operator_exp(**exp2) ==> {
                let v = index_verdict(old(self).st, **exp1, **exp2);
                &&& errors_view(final(self).errors@) == errors_view(old(self).errors@) + v.1
                &&& r is Some <==> v.0 is Some
                &&& r matches Some(t) ==> v.0 == Some(t.ty.model())
            }),
        decreases var, 8int,
    {
        match var {
            Var::VarName { loc, name } => {
                let ghost e0 = self.errors@;
                let found = match self.st.find_symbol(name.as_str()) {
                    Some(s) => Some(
                        (s.ty.copy(), s.def_loc, matches!(s.kind, SymbolKind::Module { .. })),
                    ),
                    None => None,
                };
                match found {
                    None => {
                        self.error(*loc, cat3("'", name.as_str(), "' não foi declarado."));
                        proof { lemma_errors_view_push(e0, self.errors@.last()); }
                        None
                    },
                    Some((ty, def_loc, is_module)) => {
                        if is_module {
                            self.error(*loc, cat3("'", name.as_str(), "' é um módulo, não um valor."));
                            proof { lemma_errors_view_push(e0, self.errors@.last()); }
                            return None;
                        }
                        self.record_use(*loc, def_loc, name.as_str(), &ty);
                        Some(TypedExp { loc: *loc, ty, kind: TypedExpKind::Var(name.clone()) })
                    },
                }
            },
            Var::VarBracket { loc, exp1, exp2 } => {
                let ghost frag = is_operator_exp(**exp1) && is_operator_exp(**exp2);
                proof {
                    if frag {
                        lemma_typed_verdict_has_no_errors(old(self).st, **exp1);
                        lemma_typed_verdict_has_no_errors(old(self).st, **exp2);
                    }
                }
                let base = self.check_exp(&**exp1, None)?;
                proof {
                    if frag {
                        assert(errors_view(self.errors@) =~= errors_view(old(self).errors@));
                    }
                }
                if self.reject_option(&base) {
                    return None;
                }
                let (keys_ty, result_ty) = match &base.ty {
                    Type::Array { elem } => (Type::Integer, (**elem).copy()),
                    Type::Dict { keys, values } => ((**keys).copy(), (**values).copy()),
                    Type::String => {
                        self.error(
                            base.loc,
                            String::from_str("não é possível indexar uma string com `[]` nesta fase."),
                        );
                        return None;
                    },
                    other => {
                        let found = type_name_of(other);
                        self.error(base.loc, cat3("não é possível indexar ", found.as_str(), "."));
                        return None;
                    },
                };
                let ghost mid = *self;
                let index = self.check_exp(&**exp2, Some(&keys_ty))?;
                proof {
                    lemma_exp_typing_frame(mid, *old(self), **exp2, index);
                    if frag {
                        assert(errors_view(self.errors@) =~= errors_view(old(self).errors@));
                    }
                }
                if self.reject_option(&index) {
                    return None;
                }
                if !keys_ty.compatible(&index.ty) {
                    let expected = type_name_of(&keys_ty);
                    let found = type_name_of(&index.ty);
                    let msg = cat5(
                        "índice incompatível: esperado ",
                        expected.as_str(),
                        ", encontrado ",
                        found.as_str(),
                        ".",
                    );
                    self.error(index.loc, msg);
                    return None;
                }
                Some(
                    TypedExp {
                        loc: *loc,
                        ty: result_ty,
                        kind: TypedExpKind::Index { base: Box::new(base), index: Box::new(index) },
                    },
                )
            },
            Var::VarDot { loc, exp, name } => {
                let base = self.check_exp(&**exp, None)?;
                if self.reject_option(&base) {
                    return None;
                }
                if matches!(base.ty, Type::Opaque { .. }) {
                    let found = type_name_of(&base.ty);
                    self.error(
                        base.loc,
                        cat3(
                            "'",
                            found.as_str(),
                            "' não tem campos acessíveis: é um tipo opaco, só é possível chamar métodos sobre ele.",
                        ),
                    );
                    return None;
                }
                let found = match &base.ty {
                    Type::Record { name: rname, fields } => match find_named(fields, name.as_str()) {
                        Some(k) => {
                            proof {
                                let fm = field_models(fields@);
                                assert(fm[k as int] == (fields@[k as int].0@, fields@[k as int].1.model()));
                                assert forall|j: int| 0 <= j < k implies fm[j].0 != name@ by {
                                    assert(fm[j] == (fields@[j].0@, fields@[j].1.model()));
                                }
                                assert(first_field(fm, name@, k as int));
                                let c = choose|c: int| first_field(fm, name@, c);
                                assert(c == k) by {
                                    if c < k {
                                        assert(fm[c] == (fields@[c].0@, fields@[c].1.model()));
                                    }
                                }
                            }
                            Ok((rname.clone(), fields[k].1.copy()))
                        },
                        None => {
                            proof {
                                let fm = field_models(fields@);
                                if exists|c: int| first_field(fm, name@, c) {
                                    let c = choose|c: int| first_field(fm, name@, c);
                                    assert(fm[c] == (fields@[c].0@, fields@[c].1.model()));
                                }
                            }
                            Err(Some(rname.clone()))
                        },
                    },
                    _ => Err(None),
                };
                let (rname, field_ty) = match found {
                    Ok(x) => x,
                    Err(Some(rname)) => {
                        let msg = cat5("o record '", rname.as_str(), "' não tem campo '", name.as_str(), "'.");
                        self.error(*loc, msg);
                        return None;
                    },
                    Err(None) => {
                        let found = type_name_of(&base.ty);
                        self.error(
                            base.loc,
                            cat3("só é possível acessar campo de um record, encontrado ", found.as_str(), "."),
                        );
                        return None;
                    },
                };
                match find_named(&self.field_def_locs, rname.as_str()) {
                    Some(ri) => match find_named(&self.field_def_locs[ri].1, name.as_str()) {
                        Some(fi) => {
                            let def_loc = self.field_def_locs[ri].1[fi].1;
                            self.record_use(*loc, def_loc, name.as_str(), &field_ty);
                        },
                        None => {},
                    },
                    None => {},
                }
                Some(
                    TypedExp {
                        loc: *loc,
                        ty: field_ty,
                        kind: TypedExpKind::Field { base: Box::new(base), name: name.clone() },
                    },
                )
            },
        }
    }

    /// Resolves what a call `f(...)`, `module.f(...)` or `value.m(...)`
    /// refers to: the callee, its name for messages, and its parameter and
    /// result types.
    pub fn resolve_callee(&mut self, loc: Loc, callee: &Exp) -> (r: Option<(Callee, String, Vec<Type>, Vec<Type>)>)
        requires
            old(self).wf(),
        ensures
            old(self).exp_step(*final(self)),
            r is None ==> final(self).errors@.len() > old(self).errors@.len(),
            r matches Some((c, _n, ps, rs)) ==> callee_signature(*old(self), c, models(ps@), models(rs@)),
            fn_callee_type(old(self).st, *callee) matches Some(f) ==> r matches Some((_c, _n, ps, rs)) && f == (
            TypeModel::Function { params: models(ps@), rettypes: models(rs@) }) && errors_view(final(self).errors@)
                == errors_view(old(self).errors@),
            r matches Some((c, _n, _ps, _rs)) ==> match c {
                Callee::Method { recv, .. } => match *callee {
                    Exp::ExpVar { var, .. } => match *var {
                        Var::VarDot { exp: base, .. } => exp_typing(*old(self), *base, *recv),
                        _ => false,
                    },
                    _ => false,
                },
                _ => true,
            },
        decreases callee, 7int,
    {
        let var = match callee {
            Exp::ExpVar { var, .. } => &**var,
            _ => {
                self.error(loc, String::from_str("só é possível chamar um nome de função diretamente nesta fase."));
                return None;
            },
        };
        match var {
            Var::VarName { loc: name_loc, name } => {
                let found = match self.st.find_symbol(name.as_str()) {
                    Some(s) => Some(
                        (
                            s.def_loc,
                            match &s.ty {
                                Type::Function { params, rettypes } => Some(
                                    (copy_types(params), copy_types(rettypes)),
                                ),
                                _ => None,
                            },
                        ),
                    ),
                    None => None,
                };
                let (def_loc, signature) = match found {
                    Some(x) => x,
                    None => {
                        self.error(loc, cat3("função '", name.as_str(), "' não foi declarada."));
                        return None;
                    },
                };
                let (params, rettypes) = match signature {
                    Some(x) => x,
                    None => {
                        self.error(loc, cat3("'", name.as_str(), "' não é uma função."));
                        return None;
                    },
                };
                let fn_ty = Type::Function { params: copy_types(&params), rettypes: copy_types(&rettypes) };
                self.record_use(*name_loc, def_loc, name.as_str(), &fn_ty);
                proof {
                    assert(fn_symbol(*old(self), name@, models(params@), models(rettypes@)));
                }
                let callee = if contains_str(&self.foreigns, name.as_str()) {
                    Callee::Foreign(name.clone())
                } else {
                    Callee::Direct(name.clone())
                };
                Some((callee, name.clone(), params, rettypes))
            },
            Var::VarDot { exp, name, .. } => {
                let local_name = match self.dot_base_module(&**exp) {
                    Some(n) => n,
                    None => return self.resolve_method_callee(loc, &**exp, name.as_str()),
                };
                proof {
                    let s = self.st.resolve(local_name@).unwrap();
                    lemma_latest_is_entry(self.st.entries@, local_name@);
                    let i = choose|i: int|
                        0 <= i < self.st.entries@.len() && self.st.entries@[i].0@ == local_name@
                            && Some(self.st.entries@[i].1) == self.st.resolve(local_name@);
                    assert(self.st.entries@[i].1.kind is Module);
                    assert(has_name(self.modules@, local_name@));
                }
                let k = match find_named(&self.modules, local_name.as_str()) {
                    Some(k) => k,
                    None => {
                        proof { assert(false); }
                        return None;
                    },
                };
                let capability = &self.modules[k].1;
                let ghost kk = choose|kk: int|
                    first_module_named(capability.titan_name@, kk) && capability.model()
                        == spec_capabilities()[kk];
                proof { assert(is_table_capability(self.modules@[k as int].1)); }
                let f = match capability.find_function(name.as_str()) {
                    Some(f) => f,
                    None => {
                        let msg = cat5("o módulo '", local_name.as_str(), "' não tem função '", name.as_str(), "'.");
                        self.error(loc, msg);
                        return None;
                    },
                };
                let ghost j = choose|j: int|
                    0 <= j < capability.functions@.len() && *f == capability.functions@[j]
                        && Capability::is_function_named(*f, name@) && forall|i: int|
                        0 <= i < j ==> !Capability::is_function_named(capability.functions@[i], name@);
                proof {
                    lemma_capability_entry(*capability, kk, *f, j);
                    if f.rettype.model() is Opaque {
                        lemma_opaque_results_have_types(kk, j);
                    }
                    assert(table_entry(kk, j, None, name@, models(f.params@)));
                }
                let params = copy_types(&f.params);
                let ret = requalify_rettype(&f.rettype, capability.titan_name);
                let module = capability.titan_name;
                let mut rettypes: Vec<Type> = Vec::new();
                rettypes.push(ret);
                let shown = cat3(local_name.as_str(), ".", name.as_str());
                let callee = Callee::Module { module: String::from_str(module), name: name.clone() };
                proof {
                    assert(models(rettypes@).len() == 1);
                    assert(callee->Module_module@ == module@);
                    assert(callee->Module_name@ == name@);
                    assert(table_entry(kk, j, None, name@, models(params@)));
                    assert(first_module_named(module@, kk));
                    assert(callee_signature(*old(self), callee, models(params@), models(rettypes@)));
                }
                Some((callee, shown, params, rettypes))
            },
            _ => {
                self.error(loc, String::from_str("só é possível chamar um nome de função diretamente nesta fase."));
                None
            },
        }
    }

    /// A method call on a value of an opaque type, written `value.m(...)` or
    /// `value:m(...)`; the receiver counts as used mutably.
    pub fn resolve_method_callee(&mut self, loc: Loc, recv_exp: &Exp, name: &str) -> (r: Option<(Callee, String, Vec<Type>, Vec<Type>)>)
        requires
            old(self).wf(),
        ensures
            old(self).exp_step(*final(self)),
            r is None ==> final(self).errors@.len() > old(self).errors@.len(),
            r matches Some((c, _n, ps, rs)) ==> callee_signature(*old(self), c, models(ps@), models(rs@)),
            r matches Some((c, _n, _ps, _rs)) ==> match c {
                Callee::Method { recv, .. } => exp_typing(*old(self), *recv_exp, *recv),
                _ => false,
            },
        decreases recv_exp, 10int,
    {
        let receiver = self.check_exp(recv_exp, None)?;
        let (module, tname) = match &receiver.ty {
            Type::Opaque { module, name: tn, .. } => (module.clone(), tn.clone()),
            _ => {
                let found = type_name_of(&receiver.ty);
                self.error(
                    loc,
                    cat3("só é possível chamar um nome de função diretamente nesta fase, encontrado ", found.as_str(), "."),
                );
                return None;
            },
        };
        let capability = match lookup_module(module.as_str()) {
            Some(c) => c,
            None => {
                let mut msg = cat5("o tipo '", module.as_str(), ".", tname.as_str(), "' não tem método '");
                msg.append(name);
                msg.append("'.");
                self.error(loc, msg);
                return None;
            },
        };
        let m = match capability.find_method(tname.as_str(), name) {
            Some(m) => m,
            None => {
                let mut msg = cat5("o tipo '", module.as_str(), ".", tname.as_str(), "' não tem método '");
                msg.append(name);
                msg.append("'.");
                self.error(loc, msg);
                return None;
            },
        };
        let ghost kk = choose|kk: int|
            first_module_named(module@, kk) && capability.model() == spec_capabilities()[kk];
        let ghost j = choose|j: int|
            0 <= j < capability.functions@.len() && *m == capability.functions@[j]
                && Capability::is_method_named(*m, tname@, name@) && forall|i: int|
                0 <= i < j ==> !Capability::is_method_named(capability.functions@[i], tname@, name@);
        proof {
            lemma_capability_entry(capability, kk, *m, j);
            if m.rettype.model() is Opaque {
                lemma_opaque_results_have_types(kk, j);
            }
            assert(table_entry(kk, j, Some(tname@), name@, models(m.params@)));
        }
        let params = copy_types(&m.params);
        let ret = requalify_rettype(&m.rettype, module.as_str());
        match recv_exp {
            Exp::ExpVar { var, .. } => match root_var_name(&**var) {
                Some(root) => {
                    let decl = match self.st.find_symbol(root.as_str()) {
                        Some(s) => match &s.kind {
                            SymbolKind::Local { decl_id } => Some(*decl_id),
                            _ => None,
                        },
                        None => None,
                    };
                    match decl {
                        Some(d) => self.assigned.push(d),
                        None => {},
                    }
                },
                None => {},
            },
            _ => {},
        }
        let mut shown = cat3(module.as_str(), ".", tname.as_str());
        shown.append(".");
        shown.append(name);
        let mut rettypes: Vec<Type> = Vec::new();
        rettypes.push(ret);
        let callee = Callee::Method { recv: Box::new(receiver), module, name: String::from_str(name) };
        proof {
            assert(models(rettypes@).len() == 1);
            assert(callee->Method_recv.ty.model() is Opaque);
            assert(callee->Method_recv.ty.model()->Opaque_module == module@);
            assert(callee->Method_recv.ty.model()->Opaque_name == tname@);
            assert(callee->Method_module@ == module@);
            assert(callee->Method_name@ == name@);
            assert(table_entry(kk, j, Some(tname@), name@, models(params@)));
            assert(first_module_named(module@, kk));
            assert(exists|k: int, j2: int|
                first_module_named(callee->Method_module@, k) && #[trigger] table_entry(
                    k,
                    j2,
                    Some(tname@),
                    callee->Method_name@,
                    models(params@),
                ));
            assert(callee_signature(*old(self), callee, models(params@), models(rettypes@)));
        }
        Some((callee, shown, params, rettypes))
    }

    /// Types a call as written, with all of its results: the typed call
    /// (whose type is that of the first result) and the result types.
    #[verifier::loop_isolation(false)]
    pub fn check_call(&mut self, call: &Exp) -> (r: Option<(TypedExp, Vec<Type>)>)
        requires
            old(self).wf(),
            call is ExpCall,
        ensures
            old(self).exp_step(*final(self)),
            r is None ==> final(self).errors@.len() > old(self).errors@.len(),
            r matches Some((te, rets)) ==> call_typing(*old(self), *call, te, models(rets@)),
            r matches Some((te, _rets)) ==> call_args_typing(*old(self), *call, te),
            r matches Some((te, _rets)) ==> typed_callee(te) matches Some(callee) && receiver_typing(
                *old(self),
                *call,
                callee,
            ),
            accept(old(self).st, *call) matches Some(t) ==> r matches Some((te, _rets)) && te.ty.model() == t
                && errors_view(final(self).errors@) == errors_view(old(self).errors@),
        decreases call, 3int,
    {
        let (loc, callee_exp, args) = match call {
            Exp::ExpCall { loc, exp, args } => (*loc, &**exp, args),
            _ => {
                proof { assert(false); }
                return None;
            },
        };
        let (callee, name, params, rettypes, arg_exps) = match args {
            Args::ArgsFunc { args: arg_exps, .. } => {
                let (c, n, p, rs) = self.resolve_callee(loc, callee_exp)?;
                (c, n, p, rs, arg_exps)
            },
            Args::ArgsMethod { method, args: arg_exps, .. } => {
                let (c, n, p, rs) = self.resolve_method_callee(loc, callee_exp, method.as_str())?;
                (c, n, p, rs, arg_exps)
            },
        };
        assert(arg_exps@ == call_args(*call));
        let ghost acc = accept(old(self).st, *call) is Some;
        let ghost ps = models(params@);
        proof {
            if acc {
                assert(fn_callee_type(old(self).st, *callee_exp) is Some);
                assert(args is ArgsFunc);
                assert(accept_args(old(self).st, arg_exps@, ps, arg_exps@.len() as int));
                assert(arg_exps@.len() == ps.len());
            }
        }
        let mut typed_args: Vec<TypedExp> = Vec::new();
        let mut ok = true;
        let mut i: usize = 0;
        while i < arg_exps.len()
            invariant
                i <= arg_exps@.len(),
                self.wf(),
                old(self).exp_step(*self),
                ok ==> typed_args@.len() == i,
                ok ==> forall|j: int| 0 <= j < i ==> exp_typing(*old(self), arg_exps@[j], #[trigger] typed_args@[j]),
                !ok ==> self.errors@.len() > old(self).errors@.len(),
                acc ==> accept_args(old(self).st, arg_exps@, ps, arg_exps@.len() as int) && arg_exps@.len() == ps.len(),
                acc ==> ok && errors_view(self.errors@) == errors_view(old(self).errors@),
                acc ==> forall|j: int| 0 <= j < i ==> Some(#[trigger] typed_args@[j].ty.model()) == accept(old(self).st, arg_exps@[j]),
            decreases arg_exps@.len() - i,
        {
            proof {
                if acc {
                    lemma_accept_args_index(old(self).st, arg_exps@, ps, arg_exps@.len() as int, i as int);
                }
            }
            proof { assert(decreases_to!(arg_exps => arg_exps@[i as int])); }
            let context: Option<&Type> = if i < params.len() {
                Some(&params[i])
            } else {
                None
            };
            let ghost before = *self;
            match self.check_exp(&arg_exps[i], context) {
                Some(typed) => {
                    proof { lemma_exp_typing_frame(before, *old(self), arg_exps@[i as int], typed); }
                    typed_args.push(typed);
                },
                None => ok = false,
            }
            i += 1;
        }
        if !ok {
            return None;
        }
        let mut seen_roots: Vec<String> = Vec::new();
        let mut j: usize = 0;
        while j < typed_args.len()
            invariant
                j <= typed_args@.len(),
                typed_args@.len() == arg_exps@.len(),
                self.wf(),
                old(self).exp_step(*self),
                acc ==> accept_args(old(self).st, arg_exps@, ps, arg_exps@.len() as int) && arg_exps@.len() == ps.len(),
                acc ==> errors_view(self.errors@) == errors_view(old(self).errors@),
                acc ==> forall|k: int| 0 <= k < typed_args@.len() ==> Some(#[trigger] typed_args@[k].ty.model()) == accept(old(self).st, arg_exps@[k]),
                acc ==> seen_roots@.map_values(|x: String| x@) == composite_names(old(self).st, arg_exps@, j as int),
            decreases typed_args@.len() - j,
        {
            proof {
                if acc {
                    lemma_accept_args_index(old(self).st, arg_exps@, ps, arg_exps@.len() as int, j as int);
                }
            }
            let ghost seen_before = seen_roots@;
            if is_composite(&typed_args[j].ty) {
                match &arg_exps[j] {
                    Exp::ExpVar { var, .. } => match root_var_name(&**var) {
                        Some(root) => {
                            proof {
                                if acc {
                                    if exists|k: int| 0 <= k < seen_roots@.len() && seen_roots@[k]@ == root@ {
                                        let k = choose|k: int| 0 <= k < seen_roots@.len() && seen_roots@[k]@ == root@;
                                        assert(seen_roots@.map_values(|x: String| x@)[k] == root@);
                                    }
                                }
                            }
                            if contains_str(&seen_roots, root.as_str()) {
                                let msg = cat3(
                                    "não é possível passar '",
                                    root.as_str(),
                                    "' duas vezes na mesma chamada: empréstimo mutável duplicado.",
                                );
                                self.error(typed_args[j].loc, msg);
                                return None;
                            }
                            let decl = match self.st.find_symbol(root.as_str()) {
                                Some(s) => match &s.kind {
                                    SymbolKind::Local { decl_id } => Some(*decl_id),
                                    _ => None,
                                },
                                None => None,
                            };
                            match decl {
                                Some(d) => self.assigned.push(d),
                                None => {},
                            }
                            seen_roots.push(root);
                            proof {
                                if acc {
                                    assert(seen_roots@.map_values(|x: String| x@) =~= seen_before.map_values(|x: String| x@).push(
                                        seen_roots@.last()@,
                                    ));
                                }
                            }
                        },
                        None => {},
                    },
                    _ => {},
                }
            }
            proof {
                if acc {
                    assert(seen_roots@.map_values(|x: String| x@) =~= composite_names(old(self).st, arg_exps@, j + 1));
                }
            }
            j += 1;
        }
        if typed_args.len() != params.len() {
            let mut msg = cat3("'", name.as_str(), "' espera ");
            msg.append(usize_to_string(params.len()).as_str());
            msg.append(" argumento(s), mas recebeu ");
            msg.append(usize_to_string(typed_args.len()).as_str());
            msg.append(".");
            self.error(loc, msg);
            return None;
        }
        let mut widened: Vec<TypedExp> = Vec::new();
        let ghost all_typed = typed_args@;
        let mut rest = typed_args;
        let mut i: usize = 0;
        while i < params.len()
            invariant
                i <= params@.len(),
                rest@.len() + i == params@.len(),
                widened@.len() == i,
                all_typed.len() == params@.len(),
                all_typed.len() == arg_exps@.len(),
                rest@ == all_typed.subrange(i as int, all_typed.len() as int),
                forall|j: int| 0 <= j < all_typed.len() ==> exp_typing(*old(self), arg_exps@[j], #[trigger] all_typed[j]),
                forall|j: int| 0 <= j < i ==> value_typing(*old(self), arg_exps@[j], #[trigger] widened@[j]),
                acc ==> forall|k: int| 0 <= k < all_typed.len() ==> Some(#[trigger] all_typed[k].ty.model()) == accept(old(self).st, arg_exps@[k]),
                acc ==> forall|k: int| 0 <= k < i ==> #[trigger] widened@[k].ty.model() == widened_type(ps[k], all_typed[k].ty.model()),
                ps == models(params@),
            decreases params@.len() - i,
        {
            let arg = rest.remove(0);
            let ghost ag = arg;
            let w = Self::widen_to_option(&params[i], arg);
            proof {
                assert(ag == all_typed[i as int]);
                lemma_widened_value_typing(*old(self), arg_exps@[i as int], ag, w);
            }
            widened.push(w);
            proof { assert(rest@ =~= all_typed.subrange(i + 1, all_typed.len() as int)); }
            i += 1;
        }
        let mut i: usize = 0;
        while i < widened.len()
            invariant
                i <= widened@.len(),
                widened@.len() == params@.len(),
                self.wf(),
                old(self).exp_step(*self),
                forall|j: int| 0 <= j < i ==> compatible_spec(#[trigger] models(params@)[j], widened@[j].ty.model()),
                forall|j: int| 0 <= j < widened@.len() ==> value_typing(*old(self), arg_exps@[j], #[trigger] widened@[j]),
                acc ==> accept_args(old(self).st, arg_exps@, ps, arg_exps@.len() as int) && arg_exps@.len() == ps.len(),
                acc ==> forall|k: int| 0 <= k < widened@.len() ==> Some(#[trigger] all_typed[k].ty.model()) == accept(old(self).st, arg_exps@[k]),
                acc ==> forall|k: int| 0 <= k < widened@.len() ==> #[trigger] widened@[k].ty.model() == widened_type(ps[k], all_typed[k].ty.model()),
                acc ==> errors_view(self.errors@) == errors_view(old(self).errors@),
                ps == models(params@),
                all_typed.len() == widened@.len(),
            decreases widened@.len() - i,
        {
            proof {
                if acc {
                    lemma_accept_args_index(old(self).st, arg_exps@, ps, arg_exps@.len() as int, i as int);
                    assert(ps[i as int] == params@[i as int].model());
                }
            }
            if !params[i].compatible(&widened[i].ty) {
                if self.reject_option_where_base_expected(&params[i], &widened[i]) {
                    return None;
                }
                let expected = type_name_of(&params[i]);
                let found = type_name_of(&widened[i].ty);
                let mut msg = cat3("argumento incompatível em chamada de '", name.as_str(), "': esperado ");
                msg.append(expected.as_str());
                msg.append(", encontrado ");
                msg.append(found.as_str());
                msg.append(".");
                self.error(widened[i].loc, msg);
                return None;
            }
            i += 1;
        }
        let ty = if rettypes.len() > 0 {
            rettypes[0].copy()
        } else {
            Type::Nil
        };
        proof {
            assert(callee_signature(*old(self), callee, models(params@), models(rettypes@)));
        }
        let te = TypedExp { loc, ty, kind: TypedExpKind::Call { callee, args: widened } };
        Some((te, rettypes))
    }
}

} // verus!
