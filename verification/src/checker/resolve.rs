//! Resolution of written types, and the rules about optional values that
//! every destination with a written type applies.
use vstd::prelude::*;
use crate::ast::{self, Decl, Loc};
use crate::capabilities::Capability;
use crate::checker::names::{spec_type_name, type_name_of};
use crate::checker::state::{spec_resolve_type, resolve_error, first_opaque, is_map_key, Checker};
use crate::checker::typed::{TypedExp, TypedExpKind};
use crate::checker::verdict::{errors_view, lemma_errors_view_push, option_errors, typed_name};
use crate::named::{find_named, lookup_named};
use crate::text::{cat, cat3, cat5, str_eq};
use crate::types::{compatible_spec, equals_spec, Type, TypeModel};

verus! {

/// The injection of a value into an optional destination: `nil` becomes
/// the absent value of the optional type, a value compatible with the base
/// type is wrapped, anything else is left alone.
pub open spec fn spec_widens(expected: TypeModel, value: TypeModel) -> Option<TypeModel> {
    match expected {
        TypeModel::Option { base } => if value is Nil {
            Some(expected)
        } else if value is Option {
            None
        } else if compatible_spec(*base, value) {
            Some(expected)
        } else {
            None
        },
        _ => None,
    }
}

/// `r` is `value` as a destination may adjust it: unchanged, the literal
/// `nil` retyped, or `value` wrapped as present.
pub open spec fn is_widening_of(value: TypedExp, r: TypedExp) -> bool {
    ||| r == value
    ||| value.ty == Type::Nil && r.loc == value.loc && r.kind == value.kind
    ||| r.loc == value.loc && r.kind == TypedExpKind::SomeOf(Box::new(value))
}

/// The semantic types of a list of annotations, when all of them resolve.
pub open spec fn spec_resolve_all(
    records: Seq<(String, Type)>,
    modules: Seq<(String, Capability)>,
    ts: Seq<ast::Type>,
) -> bool {
    forall|i: int| 0 <= i < ts.len() ==> (#[trigger] spec_resolve_type(records, modules, ts[i])) is Some
}

/// Every parameter has a written type, and each of them resolves.
pub open spec fn params_all_resolve(
    records: Seq<(String, Type)>,
    modules: Seq<(String, Capability)>,
    params: Seq<Decl>,
) -> bool {
    forall|i: int|
        0 <= i < params.len() ==> (#[trigger] params[i]).ty is Some && spec_resolve_type(
            records,
            modules,
            params[i].ty->Some_0,
        ) is Some
}

/// The parameter `d` has a written type that denotes `m`.
pub open spec fn param_resolves(
    records: Seq<(String, Type)>,
    modules: Seq<(String, Capability)>,
    d: Decl,
    m: TypeModel,
) -> bool {
    match d.ty {
        Some(t) => spec_resolve_type(records, modules, t) == Some(m),
        None => false,
    }
}

/// A type that crosses the C boundary of a `foreign function`.
pub open spec fn spec_crosses_ffi(t: TypeModel) -> bool {
    t is Integer || t is Float || t is Boolean || t is String
}

impl Checker {
    /// Resolves a list of annotations, stopping at the first that is
    /// rejected.
    pub fn resolve_types(&mut self, types: &Vec<ast::Type>) -> (r: Option<Vec<Type>>)
        requires
            old(self).wf(),
        ensures
            old(self).same_scope(*final(self)),
            final(self).wf(),
            match r {
                Some(v) => v@.len() == types@.len() && (forall|i: int| 0 <= i < v@.len() ==>
                    spec_resolve_type(old(self).records@, old(self).modules@, types@[i]) == Some(
                    #[trigger] v@[i].model())) && final(self).errors == old(self).errors,
                None => !spec_resolve_all(old(self).records@, old(self).modules@, types@)
                    && final(self).errors@.len() == old(self).errors@.len() + 1,
            },
    {
        let mut result: Vec<Type> = Vec::new();
        let mut i: usize = 0;
        while i < types.len()
            invariant
                i <= types@.len(),
                result@.len() == i,
                old(self).same_scope(*self),
                self.wf(),
                self.errors == old(self).errors,
                forall|j: int| 0 <= j < i ==> spec_resolve_type(old(self).records@, old(self).modules@, types@[j]) == Some(
                    #[trigger] result@[j].model()),
            decreases types@.len() - i,
        {
            match self.resolve_type(&types[i]) {
                Some(t) => result.push(t),
                None => return None,
            }
            i += 1;
        }
        Some(result)
    }

    /// Resolves the written types of parameters; a parameter without a
    /// written type is an error.
    pub fn resolve_param_types(&mut self, params: &Vec<Decl>) -> (r: Option<Vec<Type>>)
        requires
            old(self).wf(),
        ensures
            old(self).same_scope(*final(self)),
            final(self).wf(),
            match r {
                Some(v) => v@.len() == params@.len() && (forall|i: int| 0 <= i < v@.len() ==>
                    param_resolves(old(self).records@, old(self).modules@, params@[i], #[trigger] v@[i].model()))
                    && final(self).errors == old(self).errors,
                None => !params_all_resolve(old(self).records@, old(self).modules@, params@)
                    && final(self).errors@.len() == old(self).errors@.len() + 1,
            },
    {
        let mut result: Vec<Type> = Vec::new();
        let mut i: usize = 0;
        while i < params.len()
            invariant
                i <= params@.len(),
                result@.len() == i,
                old(self).same_scope(*self),
                self.wf(),
                self.errors == old(self).errors,
                forall|j: int| 0 <= j < i ==> param_resolves(old(self).records@, old(self).modules@, params@[j], #[trigger] result@[j].model()),
            decreases params@.len() - i,
        {
            let param = &params[i];
            match &param.ty {
                Some(annotated) => match self.resolve_type(annotated) {
                    Some(t) => result.push(t),
                    None => {
                        proof { assert(!(params@[i as int].ty is Some && spec_resolve_type(old(self).records@, old(self).modules@, params@[i as int].ty->Some_0) is Some)); }
                        return None;
                    },
                },
                None => {
                    self.error(
                        param.loc,
                        cat3("parâmetro '", param.name.as_str(), "' precisa de um tipo explícito."),
                    );
                    proof { assert(!(params@[i as int].ty is Some)); }
                    return None;
                },
            }
            i += 1;
        }
        Some(result)
    }

    /// Only scalars and `string` cross the boundary of a `foreign function`;
    /// anything else is reported.
    pub fn check_foreign_boundary_type(&mut self, loc: Loc, ty: &Type, onde: &str) -> (r: bool)
        ensures
            r == spec_crosses_ffi(ty.model()),
            old(self).same_scope(*final(self)),
            final(self).uses == old(self).uses,
            final(self).errors@.len() == old(self).errors@.len() + (if r { 0int } else { 1int }),
            r ==> final(self).errors == old(self).errors,
            !r ==> errors_view(final(self).errors@) == errors_view(old(self).errors@).push(
                (
                    onde@ + " é "@ + spec_type_name(ty.model()) + ", que não atravessa a fronteira de FFI; "@
                        + "só integer, float, boolean e string atravessam."@,
                    loc,
                ),
            ),
    {
        if matches!(ty, Type::Integer | Type::Float | Type::Boolean | Type::String) {
            return true;
        }
        let found = type_name_of(ty);
        let msg = cat5(
            onde,
            " é ",
            found.as_str(),
            ", que não atravessa a fronteira de FFI; ",
            "só integer, float, boolean e string atravessam.",
        );
        self.error(loc, msg);
        false
    }

    /// Type of a `for`-in variable: what the container offers, or the
    /// written annotation if it says the same thing (no coercion).
    pub fn for_in_var_type(&mut self, decl: &Decl, oferecido: &Type, papel: &str) -> (r: Option<Type>)
        requires
            old(self).wf(),
        ensures
            old(self).same_scope(*final(self)),
            final(self).wf(),
            match decl.ty {
                None => r matches Some(t) && t.model() == oferecido.model() && final(self).errors == old(self).errors,
                Some(ann) => match spec_resolve_type(old(self).records@, old(self).modules@, ann) {
                    Some(a) => if equals_spec(a, oferecido.model()) {
                        r matches Some(t) && t.model() == a && final(self).errors == old(self).errors
                    } else {
                        r is None && final(self).errors@.len() == old(self).errors@.len() + 1 && errors_view(
                            final(self).errors@,
                        ) == errors_view(old(self).errors@).push(
                            (
                                papel@ + " iterado tem tipo "@ + spec_type_name(oferecido.model()) + ", mas '"@
                                    + decl.name@ + "' foi declarado como "@ + spec_type_name(a) + "."@,
                                decl.loc,
                            ),
                        )
                    },
                    None => r is None && final(self).errors@.len() == old(self).errors@.len() + 1 && errors_view(
                        final(self).errors@,
                    ) == errors_view(old(self).errors@).push(resolve_error(old(self).records@, old(self).modules@, ann)),
                },
            },
    {
        let anotado = match &decl.ty {
            None => return Some(oferecido.copy()),
            Some(a) => a,
        };
        let anotado = self.resolve_type(anotado)?;
        if !anotado.equals(oferecido) {
            let off = type_name_of(oferecido);
            let ann = type_name_of(&anotado);
            let mut msg = String::from_str(papel);
            msg.append(" iterado tem tipo ");
            msg.append(off.as_str());
            msg.append(", mas '");
            msg.append(decl.name.as_str());
            msg.append("' foi declarado como ");
            msg.append(ann.as_str());
            msg.append(".");
            self.error(decl.loc, msg);
            return None;
        }
        Some(anotado)
    }

    /// Adjusts a value to an optional destination (see `spec_widens`).
    pub fn widen_to_option(expected: &Type, value: TypedExp) -> (r: TypedExp)
        ensures
            r.loc == value.loc,
            match spec_widens(expected.model(), value.ty.model()) {
                Some(t) => r.ty.model() == t,
                None => r == value,
            },
            is_widening_of(value, r),
    {
        let base = match expected {
            Type::Option { base } => base,
            _ => return value,
        };
        if matches!(value.ty, Type::Nil) {
            return TypedExp { loc: value.loc, ty: expected.copy(), kind: value.kind };
        }
        if matches!(value.ty, Type::Option { .. }) {
            return value;
        }
        if base.compatible(&value.ty) {
            let loc = value.loc;
            return TypedExp { loc, ty: expected.copy(), kind: TypedExpKind::SomeOf(Box::new(value)) };
        }
        value
    }

    /// Rejects an optional value used where its base type is required: it
    /// may be `nil` and has to be tested first.
    pub fn reject_option(&mut self, exp: &TypedExp) -> (r: bool)
        ensures
            r == (exp.ty.model() is Option),
            old(self).same_scope(*final(self)),
            final(self).uses == old(self).uses,
            final(self).errors@.len() == old(self).errors@.len() + (if r { 1int } else { 0int }),
            errors_view(final(self).errors@) == errors_view(old(self).errors@) + option_errors(
                exp.ty.model(),
                exp.loc,
                typed_name(*exp),
            ),
    {
        let base = match &exp.ty {
            Type::Option { base } => base,
            _ => return false,
        };
        let base = type_name_of(&**base);
        let mut msg: String;
        match &exp.kind {
            TypedExpKind::Var(name) => {
                msg = cat5("'", name.as_str(), "' é ", base.as_str(), "? e pode ser nil: teste com `if ");
                msg.append(name.as_str());
                msg.append(" ~= nil then` antes de usar como ");
                msg.append(base.as_str());
                msg.append(".");
            },
            _ => {
                msg = cat3("este valor é ", base.as_str(), "? e pode ser nil: guarde-o num `local` e teste com `if nome ~= nil then` antes de usar como ");
                msg.append(base.as_str());
                msg.append(".");
            },
        }
        let ghost e0 = self.errors@;
        self.error(exp.loc, msg);
        proof { lemma_errors_view_push(e0, self.errors@.last()); }
        true
    }

    /// `reject_option`, but only where the destination is neither optional
    /// nor `value`.
    pub fn reject_option_where_base_expected(&mut self, expected: &Type, found: &TypedExp) -> (r: bool)
        ensures
            r == (!(expected.model() is Option || expected.model() is Value) && found.ty.model() is Option),
            old(self).same_scope(*final(self)),
            final(self).uses == old(self).uses,
            final(self).errors@.len() == old(self).errors@.len() + (if r { 1int } else { 0int }),
            !r ==> errors_view(final(self).errors@) == errors_view(old(self).errors@),
    {
        if matches!(expected, Type::Option { .. } | Type::Value) {
            return false;
        }
        self.reject_option(found)
    }

    /// Closes the innermost block and records the symbols that were visible
    /// in it.
    pub fn close_scope(&mut self, start: Loc)
        requires
            old(self).wf(),
            old(self).st.depth() >= 2,
        ensures
            final(self).wf(),
            final(self).st.depth() == old(self).st.depth() - 1,
            final(self).st.entries@ == old(self).st.entries@.subrange(0, old(self).st.marks@.last() as int),
            final(self).st.marks@ == old(self).st.marks@.drop_last(),
            final(self).errors == old(self).errors,
            final(self).records == old(self).records,
            final(self).modules == old(self).modules,
            final(self).loop_depth == old(self).loop_depth,
            final(self).assigned == old(self).assigned,
            final(self).foreigns == old(self).foreigns,
            final(self).next_decl_id == old(self).next_decl_id,
            final(self).record_def_locs == old(self).record_def_locs,
            final(self).field_def_locs == old(self).field_def_locs,
            final(self).scopes@.len() == old(self).scopes@.len() + 1,
    {
        let symbols = self.visible_symbols();
        let end = self.last_loc;
        self.st.close_block();
        self.scopes.push(crate::checker::typed::ScopeSnapshot { start, end, symbols });
    }

    /// Converts a written type into the semantic type it denotes.  A
    /// rejected annotation reports exactly one error.
    pub fn resolve_type(&mut self, t: &ast::Type) -> (r: Option<Type>)
        requires
            old(self).wf(),
        ensures
            old(self).same_scope(*final(self)),
            final(self).wf(),
            match r {
                Some(ty) => spec_resolve_type(old(self).records@, old(self).modules@, *t) == Some(
                    ty.model(),
                ) && final(self).errors == old(self).errors,
                None => spec_resolve_type(old(self).records@, old(self).modules@, *t) is None
                    && final(self).errors@.len() == old(self).errors@.len() + 1
                    && errors_view(final(self).errors@) == errors_view(old(self).errors@).push(
                    resolve_error(old(self).records@, old(self).modules@, *t),
                ),
            },
        decreases t,
    {
        match t {
            ast::Type::TypeNil { .. } => Some(Type::Nil),
            ast::Type::TypeBoolean { .. } => Some(Type::Boolean),
            ast::Type::TypeInteger { .. } => Some(Type::Integer),
            ast::Type::TypeFloat { .. } => Some(Type::Float),
            ast::Type::TypeString { .. } => Some(Type::String),
            ast::Type::TypeValue { .. } => Some(Type::Value),
            ast::Type::TypeArray { subtype, .. } => {
                let elem = self.resolve_type(&**subtype)?;
                Some(Type::Array { elem: Box::new(elem) })
            },
            ast::Type::TypeMap { loc, keystype, valuestype } => {
                let keys = self.resolve_type(&**keystype)?;
                if !matches!(keys, Type::Integer | Type::String | Type::Boolean) {
                    let found = type_name_of(&keys);
                    self.error(
                        *loc,
                        cat3(
                            "chave de `map` precisa ser integer, string ou boolean, encontrado ",
                            found.as_str(),
                            ".",
                        ),
                    );
                    return None;
                }
                let values = self.resolve_type(&**valuestype)?;
                Some(Type::Dict { keys: Box::new(keys), values: Box::new(values) })
            },
            ast::Type::TypeFunction { loc, .. } => {
                self.error(
                    *loc,
                    String::from_str("tipo de função como anotação não é suportado nesta fase."),
                );
                None
            },
            ast::Type::TypeOption { loc, basetype } => {
                let base = self.resolve_type(&**basetype)?;
                match base {
                    Type::Nil => {
                        self.error(
                            *loc,
                            String::from_str(
                                "`nil?` não faz sentido: `nil` já é a ausência de valor.",
                            ),
                        );
                        None
                    },
                    Type::Value => {
                        self.error(
                            *loc,
                            String::from_str("`value?` não faz sentido: `value` já aceita `nil`."),
                        );
                        None
                    },
                    base => Some(Type::Option { base: Box::new(base) }),
                }
            },
            ast::Type::TypeName { loc, name } => {
                match find_named(&self.records, name.as_str()) {
                    Some(k) => {
                        let ty = self.records[k].1.copy();
                        match find_named(&self.record_def_locs, name.as_str()) {
                            Some(d) => {
                                let def_loc = self.record_def_locs[d].1;
                                self.record_use(*loc, def_loc, name.as_str(), &ty);
                            },
                            None => {},
                        }
                        Some(ty)
                    },
                    None => {
                        self.error(*loc, cat3("tipo '", name.as_str(), "' desconhecido."));
                        None
                    },
                }
            },
            ast::Type::TypeQualName { loc, module, name } => {
                let k = match find_named(&self.modules, module.as_str()) {
                    Some(k) => k,
                    None => {
                        self.error(*loc, cat3("módulo '", module.as_str(), "' não foi importado."));
                        return None;
                    },
                };
                let capability: &Capability = &self.modules[k].1;
                match capability.find_opaque(name.as_str()) {
                    Some(opaque) => {
                        let ghost ots = capability.opaque_types@;
                        proof {
                            let j = choose|j: int| 0 <= j < ots.len() && *opaque == ots[j]
                                && opaque.titan_name@ == name@ && forall|i: int| 0 <= i < j ==> ots[i].titan_name@ != name@;
                            let c = choose|c: int| 0 <= c < ots.len() && ots[c].titan_name@ == name@
                                && forall|i: int| 0 <= i < c ==> ots[i].titan_name@ != name@;
                            assert(c == j) by {
                                if c < j { assert(ots[c].titan_name@ == name@); }
                                if j < c { assert(ots[j].titan_name@ == name@); }
                            }
                            assert(first_opaque(ots, name@) == Some(*opaque));
                        }
                        Some(Type::Opaque {
                            module: String::from_str(capability.titan_name),
                            name: name.clone(),
                            rust_path: String::from_str(opaque.rust_path),
                        })
                    },
                    None => {
                        let msg = cat5("o módulo '", module.as_str(), "' não tem o tipo '", name.as_str(), "'.");
                        self.error(*loc, msg);
                        None
                    },
                }
            },
        }
    }
}

} // verus!
