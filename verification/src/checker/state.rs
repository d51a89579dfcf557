//! State of the checker and the resolution of written types.
use vstd::prelude::*;
use crate::ast::{self, Loc};
use crate::builtins::{builtins, spec_builtins, BuiltinModel};
use crate::capabilities::{first_module_named, spec_capabilities, Capability, OpaqueType};
use crate::checker::names::{spec_type_name, type_name_of};
use crate::checker::symtab::{latest, Symbol, SymbolKind, SymTab};
use crate::checker::typed::{
    CheckError, ScopeSnapshot, ScopedSymbol, SymbolUse, TypedExp, TypedExpKind,
};
use crate::named::{find_named, has_name, lookup_named, is_first_named};
use crate::text::{cat, cat3, cat5, str_eq};
use crate::types::{compatible_spec, models, Type, TypeModel};

verus! {

/// Position used for symbols that have no declaration in the user's file
/// (builtins, imported modules).
pub open spec fn spec_no_def_loc() -> Loc {
    Loc { line: 0, col: 0 }
}

/// A sequence is its own prefix.
pub broadcast proof fn lemma_subrange_whole<A>(s: Seq<A>)
    ensures
        #[trigger] s.subrange(0, s.len() as int) == s,
{
    assert(s.subrange(0, s.len() as int) =~= s);
}

/// `a` is a prefix of `b`.
pub open spec fn is_prefix<A>(a: Seq<A>, b: Seq<A>) -> bool {
    a.len() <= b.len() && b.subrange(0, a.len() as int) == a
}

/// Being a prefix is transitive.
pub proof fn lemma_prefix_trans<A>(a: Seq<A>, b: Seq<A>, c: Seq<A>)
    requires
        is_prefix(a, b),
        is_prefix(b, c),
    ensures
        is_prefix(a, c),
{
    assert forall|k: int| 0 <= k < a.len() implies c.subrange(0, a.len() as int)[k] == a[k] by {
        assert(c.subrange(0, b.len() as int)[k] == b[k]);
        assert(b.subrange(0, a.len() as int)[k] == a[k]);
    }
    assert(c.subrange(0, a.len() as int) =~= a);
}

/// The checker's state while it walks a program.
pub struct Checker {
    pub st: SymTab,
    pub errors: Vec<CheckError>,
    /// Next identity for a `local` declaration.
    pub next_decl_id: usize,
    /// Identities of the declarations that some assignment reaches.
    pub assigned: Vec<usize>,
    /// Resolved record types, by name.
    pub records: Vec<(String, Type)>,
    /// Imported modules, by the local name the program uses.
    pub modules: Vec<(String, Capability)>,
    pub uses: Vec<SymbolUse>,
    pub scopes: Vec<ScopeSnapshot>,
    /// Furthest position seen so far (approximates the end of a block).
    pub last_loc: Loc,
    /// Where each record name was declared.
    pub record_def_locs: Vec<(String, Loc)>,
    /// Where each field was declared, by record and field name.
    pub field_def_locs: Vec<(String, Vec<(String, Loc)>)>,
    /// Number of enclosing loops.
    pub loop_depth: usize,
    /// Names declared by `foreign function`.
    pub foreigns: Vec<String>,
}

/// `c` is an entry of the capability table, found under its own name.
pub open spec fn is_table_capability(c: Capability) -> bool {
    exists|k: int| first_module_named(c.titan_name@, k) && c.model() == spec_capabilities()[k]
}

/// Builtin `b` is declared in `st` as a global of the function type of its
/// table entry.
pub open spec fn builtin_declared(st: SymTab, b: BuiltinModel) -> bool {
    &&& st.resolve(b.titan_name) matches Some(s)
    &&& s.kind is Global
    &&& s.ty.model() == (TypeModel::Function { params: b.params, rettypes: seq![b.rettype] })
}

proof fn lemma_builtin_names_distinct()
    ensures
        forall|a: int, b: int| 0 <= a < b < spec_builtins().len() ==> spec_builtins()[a].titan_name != spec_builtins()[b].titan_name,
{
}

/// The first opaque type of `ots` named `n`.
pub open spec fn first_opaque(ots: Seq<OpaqueType>, n: Seq<char>) -> Option<OpaqueType> {
    if exists|k: int| 0 <= k < ots.len() && ots[k].titan_name@ == n {
        let k = choose|k: int|
            0 <= k < ots.len() && ots[k].titan_name@ == n && forall|j: int|
                0 <= j < k ==> ots[j].titan_name@ != n;
        Some(ots[k])
    } else {
        None
    }
}

/// The keys a map may have.
pub open spec fn is_map_key(t: TypeModel) -> bool {
    t is Integer || t is String || t is Boolean
}

/// The semantic type a written annotation denotes, given the records and
/// modules known so far; `None` when the annotation is rejected.
pub open spec fn spec_resolve_type(
    records: Seq<(String, Type)>,
    modules: Seq<(String, Capability)>,
    t: ast::Type,
) -> Option<TypeModel>
    decreases t,
{
    match t {
        ast::Type::TypeNil { .. } => Some(TypeModel::Nil),
        ast::Type::TypeBoolean { .. } => Some(TypeModel::Boolean),
        ast::Type::TypeInteger { .. } => Some(TypeModel::Integer),
        ast::Type::TypeFloat { .. } => Some(TypeModel::Float),
        ast::Type::TypeString { .. } => Some(TypeModel::String),
        ast::Type::TypeValue { .. } => Some(TypeModel::Value),
        ast::Type::TypeArray { subtype, .. } => match spec_resolve_type(records, modules, *subtype) {
            Some(e) => Some(TypeModel::Array { elem: Box::new(e) }),
            None => None,
        },
        ast::Type::TypeMap { keystype, valuestype, .. } => match spec_resolve_type(
            records,
            modules,
            *keystype,
        ) {
            Some(k) => if !is_map_key(k) {
                None
            } else {
                match spec_resolve_type(records, modules, *valuestype) {
                    Some(v) => Some(TypeModel::Dict { keys: Box::new(k), values: Box::new(v) }),
                    None => None,
                }
            },
            None => None,
        },
        ast::Type::TypeFunction { .. } => None,
        ast::Type::TypeOption { basetype, .. } => match spec_resolve_type(
            records,
            modules,
            *basetype,
        ) {
            Some(b) => if b is Nil || b is Value {
                None
            } else {
                Some(TypeModel::Option { base: Box::new(b) })
            },
            None => None,
        },
        ast::Type::TypeName { name, .. } => match lookup_named(records, name@) {
            Some(ty) => Some(ty.model()),
            None => None,
        },
        ast::Type::TypeQualName { module, name, .. } => match lookup_named(modules, module@) {
            Some(cap) => match first_opaque(cap.opaque_types@, name@) {
                Some(o) => Some(
                    TypeModel::Opaque { module: cap.titan_name@, name: name@, rust_path: o.rust_path@ },
                ),
                None => None,
            },
            None => None,
        },
    }
}

/// The error that resolving annotation `t` reports when it does not
/// resolve: the first part of it that fails, with its message.
pub open spec fn resolve_error(
    records: Seq<(String, Type)>,
    modules: Seq<(String, Capability)>,
    t: ast::Type,
) -> (Seq<char>, Loc)
    decreases t,
{
    match t {
        ast::Type::TypeArray { subtype, .. } => resolve_error(records, modules, *subtype),
        ast::Type::TypeMap { loc, keystype, valuestype } => match spec_resolve_type(records, modules, *keystype) {
            None => resolve_error(records, modules, *keystype),
            Some(k) => if !is_map_key(k) {
                ("chave de `map` precisa ser integer, string ou boolean, encontrado "@ + spec_type_name(k) + "."@, loc)
            } else {
                resolve_error(records, modules, *valuestype)
            },
        },
        ast::Type::TypeFunction { loc, .. } => ("tipo de função como anotação não é suportado nesta fase."@, loc),
        ast::Type::TypeOption { loc, basetype } => match spec_resolve_type(records, modules, *basetype) {
            None => resolve_error(records, modules, *basetype),
            Some(b) => if b is Nil {
                ("`nil?` não faz sentido: `nil` já é a ausência de valor."@, loc)
            } else {
                ("`value?` não faz sentido: `value` já aceita `nil`."@, loc)
            },
        },
        ast::Type::TypeName { loc, name } => ("tipo '"@ + name@ + "' desconhecido."@, loc),
        ast::Type::TypeQualName { loc, module, name } => match lookup_named(modules, module@) {
            None => ("módulo '"@ + module@ + "' não foi importado."@, loc),
            Some(_) => ("o módulo '"@ + module@ + "' não tem o tipo '"@ + name@ + "'."@, loc),
        },
        _ => (Seq::empty(), Loc { line: 0, col: 0 }),
    }
}

/// `a` comes after `b` in the text.
pub open spec fn loc_after(a: Loc, b: Loc) -> bool {
    a.line > b.line || (a.line == b.line && a.col > b.col)
}

/// `sym` describes the symbol `s` that its name resolves to.
pub open spec fn describes(sym: ScopedSymbol, s: Option<Symbol>) -> bool {
    match s {
        Some(s) => {
            &&& sym.ty_name@ == spec_type_name(s.ty.model())
            &&& (sym.module is Some <==> s.kind is Module)
        },
        None => false,
    }
}

impl Checker {
    /// The invariant of the checker's state.
    pub open spec fn wf(self) -> bool {
        &&& self.st.wf()
        &&& forall|k: int| 0 <= k < self.records@.len() ==> (#[trigger] self.records@[k]).1 is Record
        &&& forall|i: int| 0 <= i < self.modules@.len() ==> is_table_capability(#[trigger] self.modules@[i].1)
        &&& self.module_symbols_imported()
    }

    /// Every name declared as a module is an imported module.
    pub open spec fn module_symbols_imported(self) -> bool {
        forall|i: int|
            0 <= i < self.st.entries@.len() && (#[trigger] self.st.entries@[i]).1.kind is Module
                ==> has_name(self.modules@, self.st.entries@[i].0@)
    }

    /// What every step of the checker keeps: the invariant, the nesting of
    /// scopes, the known records, modules and foreign names, and the errors
    /// already reported.
    pub open spec fn keeps(self, next: Checker) -> bool {
        &&& next.wf()
        &&& next.st.depth() == self.st.depth()
        &&& next.records == self.records
        &&& next.modules == self.modules
        &&& next.errors@.len() >= self.errors@.len()
        &&& next.loop_depth == self.loop_depth
    }

    /// Everything but the side indexes and the errors is as in `self`.
    pub open spec fn same_scope(self, next: Checker) -> bool {
        &&& next.st == self.st
        &&& next.records == self.records
        &&& next.modules == self.modules
        &&& next.loop_depth == self.loop_depth
        &&& next.assigned == self.assigned
        &&& next.foreigns == self.foreigns
        &&& next.next_decl_id == self.next_decl_id
        &&& next.record_def_locs == self.record_def_locs
        &&& next.field_def_locs == self.field_def_locs
    }

    /// What checking an expression may change: the side indexes, the set of
    /// assigned declarations and the errors (which only grow); never the
    /// scopes, the records, the modules or the counters.
    pub open spec fn exp_step(self, next: Checker) -> bool {
        &&& next.st == self.st
        &&& next.records == self.records
        &&& next.modules == self.modules
        &&& next.loop_depth == self.loop_depth
        &&& next.foreigns == self.foreigns
        &&& next.next_decl_id == self.next_decl_id
        &&& next.record_def_locs == self.record_def_locs
        &&& next.field_def_locs == self.field_def_locs
        &&& next.errors@.len() >= self.errors@.len()
    }

    /// What checking a statement may change: besides what an expression may,
    /// declarations in the innermost open block; never the nesting of blocks.
    pub open spec fn stat_step(self, next: Checker) -> bool {
        &&& next.st.marks@ == self.st.marks@
        &&& is_prefix(self.st.entries@, next.st.entries@)
        &&& next.records == self.records
        &&& next.modules == self.modules
        &&& next.loop_depth == self.loop_depth
        &&& next.foreigns == self.foreigns
        &&& next.record_def_locs == self.record_def_locs
        &&& next.field_def_locs == self.field_def_locs
        &&& next.errors@.len() >= self.errors@.len()
    }

    /// Everything but the scopes, the side indexes and the errors is as in
    /// `self`.
    pub open spec fn same_scope_but_st(self, next: Checker) -> bool {
        &&& next.records == self.records
        &&& next.modules == self.modules
        &&& next.loop_depth == self.loop_depth
        &&& next.assigned == self.assigned
        &&& next.foreigns == self.foreigns
        &&& next.next_decl_id == self.next_decl_id
        &&& next.record_def_locs == self.record_def_locs
        &&& next.field_def_locs == self.field_def_locs
    }

    /// As `same_scope`, except that declaration positions may be added.
    pub open spec fn same_scope_but_locs(self, next: Checker) -> bool {
        &&& next.st == self.st
        &&& next.records == self.records
        &&& next.modules == self.modules
        &&& next.loop_depth == self.loop_depth
        &&& next.assigned == self.assigned
        &&& next.foreigns == self.foreigns
        &&& next.next_decl_id == self.next_decl_id
    }

    /// A checker with the builtins in the global scope.
    pub fn new() -> (r: Checker)
        ensures
            r.wf(),
            r.st.depth() == 1,
            r.errors@.len() == 0,
            r.records@.len() == 0,
            r.modules@.len() == 0,
            r.loop_depth == 0,
            forall|k: int| 0 <= k < spec_builtins().len() ==> builtin_declared(r.st, #[trigger] spec_builtins()[k]),
            r.uses@.len() == 0,
            r.scopes@.len() == 0,
            r.assigned@.len() == 0,
            r.foreigns@.len() == 0,
            r.next_decl_id == 0,
            forall|j: int| 0 <= j < r.st.entries@.len() ==> (#[trigger] r.st.entries@[j]).1.def_loc == (Loc { line: 0, col: 0 }),
    {
        let mut st = SymTab::new();
        let table = builtins();
        let mut i: usize = 0;
        proof { lemma_builtin_names_distinct(); }
        while i < table.len()
            invariant
                st.wf(),
                st.depth() == 1,
                i <= table@.len(),
                table@.len() == spec_builtins().len(),
                forall|j: int| 0 <= j < table@.len() ==> #[trigger] table@[j].model() == spec_builtins()[j],
                forall|a: int, b: int| 0 <= a < b < spec_builtins().len() ==> spec_builtins()[a].titan_name != spec_builtins()[b].titan_name,
                forall|j: int| 0 <= j < st.entries@.len() ==> (#[trigger] st.entries@[j]).1.kind is Global,
                forall|k: int| 0 <= k < i ==> builtin_declared(st, #[trigger] spec_builtins()[k]),
                forall|j: int| 0 <= j < st.entries@.len() ==> (#[trigger] st.entries@[j]).1.def_loc == (Loc { line: 0, col: 0 }),
            decreases table@.len() - i,
        {
            let b = &table[i];
            let mut rettypes: Vec<Type> = Vec::new();
            rettypes.push(b.rettype.copy());
            proof { assert(models(rettypes@) =~= seq![b.rettype.model()]); }
            let ghost prev = st.entries@;
            st.add_symbol(
                b.titan_name,
                Type::Function { params: crate::types::copy_types(&b.params), rettypes },
                SymbolKind::Global,
                Loc { line: 0, col: 0 },
            );
            proof {
                assert forall|j: int| 0 <= j < st.entries@.len() implies (#[trigger] st.entries@[j]).1.kind is Global
                    && st.entries@[j].1.def_loc == (Loc { line: 0, col: 0 }) by {
                    if j < prev.len() {
                        assert(st.entries@[j] == st.entries@.drop_last()[j]);
                    }
                }
                assert(table@[i as int].model() == spec_builtins()[i as int]);
                assert forall|k: int| 0 <= k < i + 1 implies builtin_declared(st, #[trigger] spec_builtins()[k]) by {
                    if k < i {
                        assert(spec_builtins()[k].titan_name != spec_builtins()[i as int].titan_name);
                        assert(latest(st.entries@, spec_builtins()[k].titan_name) == latest(prev, spec_builtins()[k].titan_name));
                    }
                }
            }
            i += 1;
        }
        Checker {
            st,
            errors: Vec::new(),
            next_decl_id: 0,
            assigned: Vec::new(),
            records: Vec::new(),
            modules: Vec::new(),
            uses: Vec::new(),
            scopes: Vec::new(),
            last_loc: Loc { line: 0, col: 0 },
            record_def_locs: Vec::new(),
            field_def_locs: Vec::new(),
            loop_depth: 0,
            foreigns: Vec::new(),
        }
    }

    /// Advances the furthest position seen.
    pub fn touch_loc(&mut self, loc: Loc)
        ensures
            final(self).last_loc == (if loc_after(loc, old(self).last_loc) { loc } else { old(self).last_loc }),
            old(self).same_scope(*final(self)),
            final(self).errors == old(self).errors,
            final(self).uses == old(self).uses,
    {
        if loc.line > self.last_loc.line || (loc.line == self.last_loc.line && loc.col > self.last_loc.col) {
            self.last_loc = loc;
        }
    }

    /// Declares `name` in the innermost block.
    pub fn declare(&mut self, name: &str, ty: Type, kind: SymbolKind, def_loc: Loc)
        requires
            old(self).wf(),
            kind is Module ==> has_name(old(self).modules@, name@),
        ensures
            final(self).wf(),
            final(self).st.marks@ == old(self).st.marks@,
            final(self).st.entries@.drop_last() == old(self).st.entries@,
            final(self).st.entries@.len() == old(self).st.entries@.len() + 1,
            is_prefix(old(self).st.entries@, final(self).st.entries@),
            final(self).st.resolve(name@) == Some(Symbol { ty, kind, def_loc }),
            final(self).st.entries@.last().0@ == name@,
            final(self).st.entries@.last().1 == (Symbol { ty, kind, def_loc }),
            final(self).errors == old(self).errors,
            final(self).records == old(self).records,
            final(self).modules == old(self).modules,
            final(self).loop_depth == old(self).loop_depth,
            final(self).assigned == old(self).assigned,
            final(self).foreigns == old(self).foreigns,
            final(self).next_decl_id == old(self).next_decl_id,
            final(self).record_def_locs == old(self).record_def_locs,
            final(self).field_def_locs == old(self).field_def_locs,
            final(self).uses == old(self).uses,
            final(self).last_loc == old(self).last_loc,
    {
        let ghost prev = self.st.entries@;
        self.st.add_symbol(name, ty, kind, def_loc);
        proof {
            assert(self.st.entries@.subrange(0, prev.len() as int) =~= prev);
            assert forall|i: int|
                0 <= i < self.st.entries@.len() && (#[trigger] self.st.entries@[i]).1.kind is Module
                implies has_name(self.modules@, self.st.entries@[i].0@) by {
                if i < prev.len() {
                    assert(self.st.entries@[i] == self.st.entries@.drop_last()[i]);
                }
            }
        }
    }

    /// Opens a block.
    pub fn enter_block(&mut self)
        requires
            old(self).wf(),
        ensures
            final(self).wf(),
            final(self).st.marks@ == old(self).st.marks@.push(old(self).st.entries@.len() as usize),
            final(self).st.marks@.last() as int == old(self).st.entries@.len(),
            final(self).st.entries@ == old(self).st.entries@,
            old(self).same_scope_but_st(*final(self)),
            final(self).errors == old(self).errors,
            final(self).uses == old(self).uses,
            final(self).last_loc == old(self).last_loc,
    {
        self.st.open_block();
    }

    /// Closes the innermost block without recording its symbols.
    pub fn leave_block(&mut self)
        requires
            old(self).wf(),
            old(self).st.depth() >= 2,
        ensures
            final(self).wf(),
            final(self).st.marks@ == old(self).st.marks@.drop_last(),
            final(self).st.entries@ == old(self).st.entries@.subrange(0, old(self).st.marks@.last() as int),
            old(self).same_scope_but_st(*final(self)),
            final(self).errors == old(self).errors,
            final(self).uses == old(self).uses,
            final(self).last_loc == old(self).last_loc,
    {
        let ghost prev = self.st.entries@;
        self.st.close_block();
        proof {
            assert forall|i: int|
                0 <= i < self.st.entries@.len() && (#[trigger] self.st.entries@[i]).1.kind is Module
                implies has_name(self.modules@, self.st.entries@[i].0@) by {
                assert(self.st.entries@[i] == prev[i]);
            }
        }
    }

    /// Reports an error.
    pub fn error(&mut self, loc: Loc, message: String)
        ensures
            final(self).errors@ == old(self).errors@.push(CheckError { message, loc }),
            crate::checker::verdict::errors_view(final(self).errors@) == crate::checker::verdict::errors_view(
                old(self).errors@,
            ).push((message@, loc)),
            old(self).same_scope(*final(self)),
            final(self).uses == old(self).uses,
            final(self).last_loc == old(self).last_loc,
    {
        let ghost e0 = self.errors@;
        self.errors.push(CheckError { message, loc });
        proof { crate::checker::verdict::lemma_errors_view_push(e0, self.errors@.last()); }
    }

    /// Records a resolved use of `name`, unless its declaration lies outside
    /// the user's file.
    pub fn record_use(&mut self, use_loc: Loc, def_loc: Loc, name: &str, ty: &Type)
        ensures
            def_loc == spec_no_def_loc() ==> final(self).uses == old(self).uses,
            def_loc != spec_no_def_loc() ==> final(self).uses@ == old(self).uses@.push(SymbolUse {
                use_loc,
                def_loc,
                name: final(self).uses@.last().name,
                ty_name: final(self).uses@.last().ty_name,
            }) && final(self).uses@.last().name@ == name@
                && final(self).uses@.last().ty_name@ == spec_type_name(ty.model()),
            old(self).same_scope(*final(self)),
            final(self).errors == old(self).errors,
            final(self).last_loc == old(self).last_loc,
    {
        if def_loc.line == 0 && def_loc.col == 0 {
            return;
        }
        self.uses.push(SymbolUse {
            use_loc,
            def_loc,
            name: String::from_str(name),
            ty_name: type_name_of(ty),
        });
    }

    /// The symbols visible now, one per name (the one it resolves to).
    pub fn visible_symbols(&self) -> (r: Vec<ScopedSymbol>)
        ensures
            forall|i: int| 0 <= i < r@.len() ==> describes(r@[i], #[trigger] self.st.resolve(r@[i].name@)),
            forall|i: int, j: int| 0 <= i < j < r@.len() ==> r@[i].name@ != r@[j].name@,
    {
        let mut out: Vec<ScopedSymbol> = Vec::new();
        let mut seen: Vec<String> = Vec::new();
        let n = self.st.entries.len();
        let mut i: usize = n;
        while i > 0
            invariant
                i <= n,
                n == self.st.entries@.len(),
                out@.len() == seen@.len(),
                forall|k: int| 0 <= k < out@.len() ==> #[trigger] out@[k].name@ == seen@[k]@,
                forall|a: int, b: int| 0 <= a < b < out@.len() ==> out@[a].name@ != out@[b].name@,
                forall|k: int| 0 <= k < out@.len() ==> describes(out@[k], #[trigger] self.st.resolve(out@[k].name@)),
            decreases i,
        {
            let name = &self.st.entries[i - 1].0;
            if !crate::named::contains_str(&seen, name.as_str()) {
                let resolved = self.st.find_symbol(name.as_str());
                match resolved {
                    Some(symbol) => {
                        let module = match &symbol.kind {
                            SymbolKind::Module { name: m } => Some(m.clone()),
                            _ => None,
                        };
                        out.push(ScopedSymbol {
                            name: name.clone(),
                            ty_name: type_name_of(&symbol.ty),
                            module,
                        });
                        seen.push(name.clone());
                    },
                    None => {},
                }
            }
            i -= 1;
        }
        out
    }
}

} // verus!
