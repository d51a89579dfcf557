//! Top-level declarations: the signatures (first pass), the bodies (second
//! pass), the validation of `main`, and the entry points of the checker.
use vstd::prelude::*;
use crate::ast::{self, Decl, Loc, Stat, TopLevel};
use crate::capabilities::{
    available_module_names, first_module_named, lookup_module, spec_capabilities, spec_lookup_module, Capability,
};
use crate::checker::names::type_name_of;
use crate::checker::records::{has_cycle, record_graph};
use crate::checker::verdict::errors_view;
use crate::checker::resolve::{param_resolves, params_all_resolve, spec_crosses_ffi, spec_resolve_all};
use crate::checker::state::{
    is_prefix, is_table_capability, lemma_prefix_trans, spec_no_def_loc, spec_resolve_type, Checker,
};
use crate::checker::stat::{loop_body_depth, stat_typing, stats_typed, sub_typed, within};
use crate::checker::symtab::{latest, Symbol, SymbolKind};
use crate::checker::typed::{
    CheckError, CheckedProgram, ScopeSnapshot, TypedProgram, TypedStat, TypedTopLevel,
};
use crate::named::{contains_str, find_named, has_name};
use crate::text::{cat, cat3, str_eq};
use crate::types::{copy_types, models, Type, TypeModel};

verus! {

broadcast use {vstd::std_specs::vec::axiom_vec_decreases_to_view, crate::checker::state::lemma_subrange_whole};

/// `node` declares `main` with the signature `main(args: {string}): integer`.
pub open spec fn is_valid_main(node: TopLevel) -> bool {
    match node {
        TopLevel::TopLevelFunc { name, params, rettypes, .. } => {
            &&& name@ == "main"@
            &&& params@.len() == 1
            &&& match params@[0].ty {
                Some(t) => match t {
                    ast::Type::TypeArray { subtype, .. } => *subtype is TypeString,
                    _ => false,
                },
                None => false,
            }
            &&& rettypes@.len() == 1
            &&& rettypes@[0] is TypeInteger
        },
        _ => false,
    }
}

/// `n` resolves in `c` to a function.
pub open spec fn resolves_to_function(c: Checker, n: Seq<char>) -> bool {
    match c.st.resolve(n) {
        Some(s) => s.ty is Function,
        None => false,
    }
}

/// The name of a function is still free, every parameter has a written
/// type, and the parameter and result types all resolve.
pub open spec fn signature_resolves(before: Checker, name: Seq<char>, params: Seq<Decl>, rettypes: Seq<ast::Type>) -> bool {
    &&& before.st.resolve(name) is None
    &&& params_all_resolve(before.records@, before.modules@, params)
    &&& spec_resolve_all(before.records@, before.modules@, rettypes)
}

/// `name` is declared in `after` as a global, at `loc`, of the function
/// type that the annotations denote in `before`.
pub open spec fn declared_as_function(
    before: Checker,
    after: Checker,
    loc: Loc,
    name: Seq<char>,
    params: Seq<Decl>,
    rettypes: Seq<ast::Type>,
) -> bool {
    &&& after.st.resolve(name) matches Some(s)
    &&& s.kind is Global
    &&& s.def_loc == loc
    &&& s.ty.model() matches TypeModel::Function { params: ps, rettypes: rs }
    &&& ps.len() == params.len()
    &&& rs.len() == rettypes.len()
    &&& forall|i: int| 0 <= i < ps.len() ==> param_resolves(before.records@, before.modules@, params[i], #[trigger] ps[i])
    &&& forall|i: int| 0 <= i < rs.len() ==> spec_resolve_type(before.records@, before.modules@, rettypes[i]) == Some(#[trigger] rs[i])
}

/// What registering the signature of function `name` does: a name already
/// declared, or a parameter or result type that does not resolve, is one
/// error and leaves the table as it was; otherwise `name` is declared as a
/// global, at `loc`, of the function type that its annotations denote.
pub open spec fn signature_registered(
    before: Checker,
    after: Checker,
    loc: Loc,
    name: Seq<char>,
    params: Seq<Decl>,
    rettypes: Seq<ast::Type>,
) -> bool {
    if !signature_resolves(before, name, params, rettypes) {
        after.errors@.len() == before.errors@.len() + 1 && after.st == before.st
    } else {
        after.errors == before.errors && declared_as_function(before, after, loc, name, params, rettypes)
    }
}

/// The resolved types of a foreign function cross the C boundary: every
/// parameter, and at most one result, which is `nil` or crosses too.
pub open spec fn crosses_boundary(before: Checker, params: Seq<Decl>, rettypes: Seq<ast::Type>) -> bool {
    &&& forall|i: int|
        0 <= i < params.len() ==> spec_crosses_ffi(
            spec_resolve_type(before.records@, before.modules@, (#[trigger] params[i]).ty->Some_0)->Some_0,
        )
    &&& rettypes.len() <= 1
    &&& rettypes.len() == 1 ==> {
        let r = spec_resolve_type(before.records@, before.modules@, rettypes[0])->Some_0;
        r is Nil || spec_crosses_ffi(r)
    }
}

/// What registering a foreign function does: as for a function, and, when
/// its signature resolves, a type that does not cross the C boundary is
/// reported and leaves the table as it was; otherwise the name is also
/// listed as foreign.
pub open spec fn foreign_registered(
    before: Checker,
    after: Checker,
    loc: Loc,
    name: Seq<char>,
    params: Seq<Decl>,
    rettypes: Seq<ast::Type>,
) -> bool {
    if !signature_resolves(before, name, params, rettypes) {
        after.errors@.len() == before.errors@.len() + 1 && after.st == before.st
    } else if crosses_boundary(before, params, rettypes) {
        &&& after.errors == before.errors
        &&& declared_as_function(before, after, loc, name, params, rettypes)
        &&& after.foreigns@.len() == before.foreigns@.len() + 1
        &&& after.foreigns@.drop_last() == before.foreigns@
        &&& after.foreigns@.last()@ == name
    } else {
        after.errors@.len() > before.errors@.len() && after.st == before.st
    }
}

/// The type of a function built from the resolved parameter and result
/// types is the one its annotations denote.
proof fn lemma_function_model(
    c: Checker,
    pts: Seq<Type>,
    rts: Seq<Type>,
    params: Seq<Decl>,
    rettypes: Seq<ast::Type>,
    fn_ty: Type,
)
    requires
        pts.len() == params.len(),
        forall|i: int| 0 <= i < pts.len() ==> param_resolves(c.records@, c.modules@, params[i], #[trigger] pts[i].model()),
        rts.len() == rettypes.len(),
        forall|i: int| 0 <= i < rts.len() ==> spec_resolve_type(c.records@, c.modules@, rettypes[i]) == Some(#[trigger] rts[i].model()),
        fn_ty is Function,
        fn_ty->Function_params@ == pts,
        fn_ty->Function_rettypes@ == rts,
    ensures
        params_all_resolve(c.records@, c.modules@, params),
        spec_resolve_all(c.records@, c.modules@, rettypes),
        fn_ty.model() matches TypeModel::Function { params: ps, rettypes: rs } && ps.len() == params.len() && rs.len()
            == rettypes.len() && (forall|i: int| 0 <= i < ps.len() ==> param_resolves(c.records@, c.modules@, params[i], #[trigger] ps[i]))
            && (forall|i: int| 0 <= i < rs.len() ==> spec_resolve_type(c.records@, c.modules@, rettypes[i]) == Some(#[trigger] rs[i])),
{
    let ps = models(pts);
    let rs = models(rts);
    assert forall|i: int| 0 <= i < ps.len() implies param_resolves(c.records@, c.modules@, params[i], #[trigger] ps[i]) by {
        assert(ps[i] == pts[i].model());
    }
    assert forall|i: int| 0 <= i < rs.len() implies spec_resolve_type(c.records@, c.modules@, rettypes[i]) == Some(#[trigger] rs[i]) by {
        assert(rs[i] == rts[i].model());
    }
    assert forall|i: int| 0 <= i < params.len() implies (#[trigger] params[i]).ty is Some && spec_resolve_type(
        c.records@,
        c.modules@,
        params[i].ty->Some_0,
    ) is Some by {
        assert(param_resolves(c.records@, c.modules@, params[i], pts[i].model()));
    }
    assert forall|i: int| 0 <= i < rettypes.len() implies (#[trigger] spec_resolve_type(c.records@, c.modules@, rettypes[i])) is Some by {
        assert(spec_resolve_type(c.records@, c.modules@, rettypes[i]) == Some(rts[i].model()));
    }
}

/// The first `n` of `names`, separated by `, `.
pub open spec fn joined_names(names: Seq<Seq<char>>, n: int) -> Seq<char>
    decreases n,
{
    if n <= 0 || n > names.len() {
        Seq::empty()
    } else if n == 1 {
        names[0]
    } else {
        joined_names(names, n - 1) + ", "@ + names[n - 1]
    }
}

/// The error for importing a module that the capability table lacks: it
/// lists the modules there are.
pub open spec fn unknown_module_message(modname: Seq<char>) -> Seq<char> {
    let names = spec_capabilities().map_values(|c: crate::capabilities::CapabilityModel| c.titan_name);
    "capability '"@ + modname + "' não existe; disponíveis: "@ + joined_names(names, names.len() as int) + "."@
}

/// What an `import localname = modname` does: a local name already used is
/// one error; a module that the capability table lacks is one error; in
/// both cases the scopes and the modules stay as they were.  Otherwise the
/// module is added under its local name, which resolves to a module
/// symbol, and no error is reported.
pub open spec fn import_registered(before: Checker, after: Checker, localname: Seq<char>, modname: Seq<char>) -> bool {
    if before.st.resolve(localname) is Some || has_name(before.modules@, localname) {
        &&& after.errors@.len() == before.errors@.len() + 1
        &&& after.errors@.last().message@ == "'"@ + localname + "' já foi declarado antes."@
        &&& after.st == before.st
        &&& after.modules == before.modules
    } else {
        match spec_lookup_module(modname) {
            Some(cap) => {
                &&& after.errors == before.errors
                &&& after.modules@.len() == before.modules@.len() + 1
                &&& after.modules@.drop_last() == before.modules@
                &&& after.modules@.last().0@ == localname
                &&& after.modules@.last().1.model() == cap
                &&& after.st.resolve(localname) matches Some(s)
                &&& s.kind matches SymbolKind::Module { name }
                &&& name@ == modname
            },
            None => {
                &&& after.errors@.len() == before.errors@.len() + 1
                &&& after.errors@.last().message@ == unknown_module_message(modname)
                &&& after.st == before.st
                &&& after.modules == before.modules
            },
        }
    }
}

/// A function named `main`.
pub open spec fn names_main(d: TopLevel) -> bool {
    d matches TopLevel::TopLevelFunc { name, .. } && name@ == "main"@
}

/// Declaration `k` of `program` is its first function named `main`.
pub open spec fn is_first_main(program: Seq<TopLevel>, k: int) -> bool {
    &&& 0 <= k < program.len()
    &&& names_main(program[k])
    &&& forall|j: int| 0 <= j < k ==> !names_main(#[trigger] program[j])
}

/// Where a missing or malformed `main` is reported: at the first function
/// named `main`, or at the start of the file when there is none.
pub open spec fn main_error_loc(program: Seq<TopLevel>) -> Loc {
    if exists|k: int| is_first_main(program, k) {
        program[choose|k: int| is_first_main(program, k)]->TopLevelFunc_loc
    } else {
        Loc { line: 1, col: 1 }
    }
}

/// Every declaration is marked mutable exactly when some assignment reaches
/// it (`assigned` holds the reassigned declarations).
pub open spec fn mutability_ok(ts: TypedStat, assigned: Seq<usize>) -> bool
    decreases ts,
{
    match ts {
        TypedStat::Block { stats, .. } => forall|i: int|
            0 <= i < stats@.len() ==> mutability_ok(#[trigger] stats@[i], assigned),
        TypedStat::Decl { decl_id, mutable, .. } => mutable == assigned.contains(decl_id),
        TypedStat::DeclMulti { targets, .. } => forall|i: int|
            0 <= i < targets@.len() ==> (#[trigger] targets@[i]).mutable == assigned.contains(
                targets@[i].decl_id,
            ),
        TypedStat::If { thens, elsestat, .. } => {
            &&& forall|i: int| 0 <= i < thens@.len() ==> mutability_ok(#[trigger] thens@[i].block, assigned)
            &&& match elsestat {
                Some(e) => mutability_ok(*e, assigned),
                None => true,
            }
        },
        TypedStat::While { block, .. } => mutability_ok(*block, assigned),
        TypedStat::Repeat { block, .. } => mutability_ok(*block, assigned),
        TypedStat::For { block, .. } => mutability_ok(*block, assigned),
        TypedStat::ForIn { block, .. } => mutability_ok(*block, assigned),
        _ => true,
    }
}

/// `b` is `a` with, at most, other mutability marks on its declarations.
pub open spec fn same_but_mutability(a: TypedStat, b: TypedStat) -> bool
    decreases a,
{
    match a {
        TypedStat::Block { loc, stats } => match b {
            TypedStat::Block { loc: l, stats: s } => l == loc && s@.len() == stats@.len() && forall|i: int|
                0 <= i < s@.len() ==> same_but_mutability(stats@[i], #[trigger] s@[i]),
            _ => false,
        },
        TypedStat::Decl { loc, name, ty, value, decl_id, .. } => match b {
            TypedStat::Decl { loc: l, name: n, ty: t, value: v, decl_id: d, .. } => l == loc && n == name
                && t == ty && v == value && d == decl_id,
            _ => false,
        },
        TypedStat::DeclMulti { loc, targets, values } => match b {
            TypedStat::DeclMulti { loc: l, targets: ts, values: vs } => l == loc && vs == values
                && ts@.len() == targets@.len() && forall|i: int|
                0 <= i < ts@.len() ==> (#[trigger] ts@[i]).loc == targets@[i].loc && ts@[i].name == targets@[i].name
                    && ts@[i].ty == targets@[i].ty && ts@[i].decl_id == targets@[i].decl_id,
            _ => false,
        },
        TypedStat::If { loc, thens, elsestat } => match b {
            TypedStat::If { loc: l, thens: tt, elsestat: e } => {
                &&& l == loc
                &&& tt@.len() == thens@.len()
                &&& forall|i: int|
                    0 <= i < tt@.len() ==> (#[trigger] tt@[i]).loc == thens@[i].loc && tt@[i].condition
                        == thens@[i].condition && tt@[i].narrowed == thens@[i].narrowed && same_but_mutability(
                        thens@[i].block,
                        tt@[i].block,
                    )
                &&& match elsestat {
                    Some(x) => match e {
                        Some(y) => same_but_mutability(*x, *y),
                        None => false,
                    },
                    None => e is None,
                }
            },
            _ => false,
        },
        TypedStat::While { loc, condition, block } => match b {
            TypedStat::While { loc: l, condition: c, block: bl } => l == loc && c == condition
                && same_but_mutability(*block, *bl),
            _ => false,
        },
        TypedStat::Repeat { loc, block, condition } => match b {
            TypedStat::Repeat { loc: l, block: bl, condition: c } => l == loc && c == condition
                && same_but_mutability(*block, *bl),
            _ => false,
        },
        TypedStat::For { loc, name, ty, start, finish, inc, block } => match b {
            TypedStat::For { loc: l, name: n, ty: t, start: s0, finish: f, inc: i, block: bl } => l == loc
                && n == name && t == ty && s0 == start && f == finish && i == inc && same_but_mutability(
                *block,
                *bl,
            ),
            _ => false,
        },
        TypedStat::ForIn { loc, kind, container, block } => match b {
            TypedStat::ForIn { loc: l, kind: k, container: c, block: bl } => l == loc && k == kind
                && c == container && same_but_mutability(*block, *bl),
            _ => false,
        },
        _ => b == a,
    }
}

/// Whether `v` holds `x`.
fn contains_id(v: &Vec<usize>, x: usize) -> (r: bool)
    ensures
        r == v@.contains(x),
{
    let mut i: usize = 0;
    while i < v.len()
        invariant
            i <= v@.len(),
            forall|j: int| 0 <= j < i ==> v@[j] != x,
        decreases v@.len() - i,
    {
        if v[i] == x {
            assert(v@[i as int] == x);
            return true;
        }
        i += 1;
    }
    false
}

/// Marks each declaration of a checked body as mutable exactly when some
/// assignment reaches it; nothing else changes.
#[verifier::loop_isolation(false)]
pub fn fixup_mutability(ts: TypedStat, assigned: &Vec<usize>) -> (r: TypedStat)
    ensures
        mutability_ok(r, assigned@),
        crate::checker::typed::spec_typed_stat_loc(r) == crate::checker::typed::spec_typed_stat_loc(ts),
        same_but_mutability(ts, r),
    decreases ts,
{
    let ghost whole = ts;
    match ts {
        TypedStat::Block { loc, stats } => {
            let ghost orig = stats@;
            proof { assert(orig == whole->Block_stats@); }
            let mut out: Vec<TypedStat> = Vec::new();
            let mut rest = stats;
            while rest.len() > 0
                invariant
                    out@.len() <= orig.len(),
                    rest@ == orig.subrange(out@.len() as int, orig.len() as int),
                    orig == whole->Block_stats@,
                    whole is Block,
                    forall|j: int| 0 <= j < out@.len() ==> mutability_ok(#[trigger] out@[j], assigned@),
                    forall|j: int| 0 <= j < out@.len() ==> same_but_mutability(orig[j], #[trigger] out@[j]),
                decreases rest@.len(),
            {
                let ghost k = out@.len() as int;
                let s = rest.remove(0);
                proof {
                    assert(s == orig[k]);
                    assert(decreases_to!(whole => whole->Block_stats));
                    assert(decreases_to!(whole->Block_stats => whole->Block_stats@));
                    assert(decreases_to!(whole->Block_stats@ => orig[k]));
                    assert(decreases_to!(whole => s));
                }
                let f = fixup_mutability(s, assigned);
                out.push(f);
                assert(rest@ =~= orig.subrange(out@.len() as int, orig.len() as int));
            }
            TypedStat::Block { loc, stats: out }
        },
        TypedStat::Decl { loc, name, ty, value, decl_id, mutable: _ } => {
            let mutable = contains_id(assigned, decl_id);
            TypedStat::Decl { loc, name, ty, value, decl_id, mutable }
        },
        TypedStat::DeclMulti { loc, targets, values } => {
            let ghost orig = targets@;
            let mut out: Vec<crate::checker::typed::TypedDeclTarget> = Vec::new();
            let mut rest = targets;
            while rest.len() > 0
                invariant
                    out@.len() <= orig.len(),
                    rest@ == orig.subrange(out@.len() as int, orig.len() as int),
                    forall|j: int|
                        0 <= j < out@.len() ==> (#[trigger] out@[j]).mutable == assigned@.contains(
                            out@[j].decl_id,
                        ),
                    forall|j: int|
                        0 <= j < out@.len() ==> (#[trigger] out@[j]).loc == orig[j].loc && out@[j].name == orig[j].name
                            && out@[j].ty == orig[j].ty && out@[j].decl_id == orig[j].decl_id,
                decreases rest@.len(),
            {
                let ghost k = out@.len() as int;
                let mut t = rest.remove(0);
                proof { assert(t == orig[k]); }
                t.mutable = contains_id(assigned, t.decl_id);
                out.push(t);
                assert(rest@ =~= orig.subrange(out@.len() as int, orig.len() as int));
            }
            TypedStat::DeclMulti { loc, targets: out, values }
        },
        TypedStat::If { loc, thens, elsestat } => {
            let ghost orig = thens@;
            proof { assert(orig == whole->If_thens@); }
            let mut out: Vec<crate::checker::typed::TypedThen> = Vec::new();
            let mut rest = thens;
            while rest.len() > 0
                invariant
                    out@.len() <= orig.len(),
                    rest@ == orig.subrange(out@.len() as int, orig.len() as int),
                    orig == whole->If_thens@,
                    whole is If,
                    forall|j: int| 0 <= j < out@.len() ==> mutability_ok(#[trigger] out@[j].block, assigned@),
                    forall|j: int|
                        0 <= j < out@.len() ==> (#[trigger] out@[j]).loc == orig[j].loc && out@[j].condition
                            == orig[j].condition && out@[j].narrowed == orig[j].narrowed && same_but_mutability(
                            orig[j].block,
                            out@[j].block,
                        ),
                decreases rest@.len(),
            {
                let ghost k = out@.len() as int;
                let t = rest.remove(0);
                proof {
                    assert(t == orig[k]);
                    assert(decreases_to!(whole => whole->If_thens));
                    assert(decreases_to!(whole->If_thens => whole->If_thens@));
                    assert(decreases_to!(whole->If_thens@ => orig[k]));
                    assert(decreases_to!(orig[k] => orig[k].block));
                }
                let crate::checker::typed::TypedThen { loc: tloc, condition, block, narrowed } = t;
                let block = fixup_mutability(block, assigned);
                out.push(crate::checker::typed::TypedThen { loc: tloc, condition, block, narrowed });
                assert(rest@ =~= orig.subrange(out@.len() as int, orig.len() as int));
            }
            let elsestat = match elsestat {
                Some(e) => Some(Box::new(fixup_mutability(*e, assigned))),
                None => None,
            };
            TypedStat::If { loc, thens: out, elsestat }
        },
        TypedStat::While { loc, condition, block } => TypedStat::While {
            loc,
            condition,
            block: Box::new(fixup_mutability(*block, assigned)),
        },
        TypedStat::Repeat { loc, block, condition } => TypedStat::Repeat {
            loc,
            block: Box::new(fixup_mutability(*block, assigned)),
            condition,
        },
        TypedStat::For { loc, name, ty, start, finish, inc, block } => TypedStat::For {
            loc,
            name,
            ty,
            start,
            finish,
            inc,
            block: Box::new(fixup_mutability(*block, assigned)),
        },
        TypedStat::ForIn { loc, kind, container, block } => TypedStat::ForIn {
            loc,
            kind,
            container,
            block: Box::new(fixup_mutability(*block, assigned)),
        },
        other => other,
    }
}

/// A body checked in a state where `b` stands for `a` is checked the same
/// way: the mutability marks are not part of what `stat_typing` states.
pub proof fn lemma_stat_typing_same_but_mutability(c: Checker, rets: Seq<TypeModel>, stat: Stat, a: TypedStat, b: TypedStat)
    requires
        stat_typing(c, rets, stat, a),
        same_but_mutability(a, b),
    ensures
        stat_typing(c, rets, stat, b),
    decreases stat, 1int,
{
    match stat {
        Stat::StatBlock { stats, .. } => match a {
            TypedStat::Block { stats: sa, .. } => match b {
                TypedStat::Block { stats: sb, .. } => {
                    lemma_stats_typed_same_but_mutability(c, c.loop_depth as int, rets, stats@, sa@, sb@);
                },
                _ => {},
            },
            _ => {},
        },
        Stat::StatWhile { block, .. } => match a {
            TypedStat::While { block: ba, .. } => match b {
                TypedStat::While { block: bb, .. } => {
                    lemma_sub_typed_same_but_mutability(c, loop_body_depth(c.loop_depth), rets, *block, *ba, *bb);
                },
                _ => {},
            },
            _ => {},
        },
        Stat::StatFor { block, .. } => match a {
            TypedStat::For { block: ba, .. } => match b {
                TypedStat::For { block: bb, .. } => {
                    lemma_sub_typed_same_but_mutability(c, loop_body_depth(c.loop_depth), rets, *block, *ba, *bb);
                },
                _ => {},
            },
            _ => {},
        },
        Stat::StatForIn { block, .. } => match a {
            TypedStat::ForIn { block: ba, .. } => match b {
                TypedStat::ForIn { block: bb, .. } => {
                    lemma_sub_typed_same_but_mutability(c, loop_body_depth(c.loop_depth), rets, *block, *ba, *bb);
                },
                _ => {},
            },
            _ => {},
        },
        Stat::StatRepeat { block, .. } => match a {
            TypedStat::Repeat { block: ba, .. } => match b {
                TypedStat::Repeat { block: bb, .. } => match *block {
                    Stat::StatBlock { stats, .. } => match *ba {
                        TypedStat::Block { stats: sa, .. } => match *bb {
                            TypedStat::Block { stats: sb, .. } => {
                                assert(decreases_to!(stat => stats));
                                assert(same_but_mutability(*ba, *bb));
                                reveal_with_fuel(same_but_mutability, 2);
                                lemma_stats_typed_same_but_mutability(
                                    c,
                                    loop_body_depth(c.loop_depth),
                                    rets,
                                    stats@,
                                    sa@,
                                    sb@,
                                );
                            },
                            _ => {},
                        },
                        _ => {},
                    },
                    _ => {},
                },
                _ => {},
            },
            _ => {},
        },
        Stat::StatIf { thens, elsestat, .. } => match a {
            TypedStat::If { thens: ta, elsestat: ea, .. } => match b {
                TypedStat::If { thens: tb, elsestat: eb, .. } => {
                    assert forall|i: int| 0 <= i < tb@.len() implies (#[trigger] tb@[i]).condition == ta@[i].condition
                        && sub_typed(c, c.loop_depth as int, rets, thens@[i].block, tb@[i].block) by {
                        assert(decreases_to!(stat => thens@[i].block));
                        lemma_sub_typed_same_but_mutability(
                            c,
                            c.loop_depth as int,
                            rets,
                            thens@[i].block,
                            ta@[i].block,
                            tb@[i].block,
                        );
                    }
                    match elsestat {
                        Some(e) => match ea {
                            Some(x) => match eb {
                                Some(y) => lemma_sub_typed_same_but_mutability(c, c.loop_depth as int, rets, *e, *x, *y),
                                None => {},
                            },
                            None => {},
                        },
                        None => {},
                    }
                },
                _ => {},
            },
            _ => {},
        },
        _ => {},
    }
}

/// `sub_typed` does not see the mutability marks.
pub proof fn lemma_sub_typed_same_but_mutability(
    c: Checker,
    depth: int,
    rets: Seq<TypeModel>,
    s: Stat,
    a: TypedStat,
    b: TypedStat,
)
    requires
        sub_typed(c, depth, rets, s, a),
        same_but_mutability(a, b),
    ensures
        sub_typed(c, depth, rets, s, b),
    decreases s, 2int,
{
    let e = choose|e: Checker| #[trigger] within(c, e) && e.loop_depth == depth && stat_typing(e, rets, s, a);
    lemma_stat_typing_same_but_mutability(e, rets, s, a, b);
}

/// `stats_typed` does not see the mutability marks.
pub proof fn lemma_stats_typed_same_but_mutability(
    c: Checker,
    depth: int,
    rets: Seq<TypeModel>,
    stats: Seq<Stat>,
    sa: Seq<TypedStat>,
    sb: Seq<TypedStat>,
)
    requires
        stats_typed(c, depth, rets, stats, sa),
        sb.len() == sa.len(),
        forall|i: int| 0 <= i < sa.len() ==> same_but_mutability(sa[i], #[trigger] sb[i]),
    ensures
        stats_typed(c, depth, rets, stats, sb),
    decreases stats, 3int,
{
    assert forall|i: int| 0 <= i < sb.len() implies sub_typed(c, depth, rets, stats[i], #[trigger] sb[i]) by {
        assert(sub_typed(c, depth, rets, stats[i], sa[i]));
        lemma_sub_typed_same_but_mutability(c, depth, rets, stats[i], sa[i], sb[i]);
    }
}

/// The state `e` in which the body of a function with the parameters `tp`
/// is checked, from the state `g` of the global scope: the same records,
/// modules and loop nesting, and the parameters declared after the global
/// names, in order, with their types.
pub open spec fn in_body_of(e: Checker, g: Checker, tp: Seq<(String, Type)>) -> bool {
    &&& e.records == g.records
    &&& e.modules == g.modules
    &&& e.loop_depth == g.loop_depth
    &&& e.st.entries@.len() == g.st.entries@.len() + tp.len()
    &&& forall|j: int| 0 <= j < g.st.entries@.len() ==> #[trigger] e.st.entries@[j] == g.st.entries@[j]
    &&& forall|i: int|
        0 <= i < tp.len() ==> e.st.entries@[g.st.entries@.len() + i].0@ == (#[trigger] tp[i]).0@
            && e.st.entries@[g.st.entries@.len() + i].1.ty.model() == tp[i].1.model()
            && e.st.entries@[g.st.entries@.len() + i].1.kind is Param
}

/// Some state `e` in which a function body is checked from `g` (see
/// `in_body_of`) checks the written body `block` to `body`.
pub open spec fn body_checked(
    g: Checker,
    tp: Seq<(String, Type)>,
    rets: Seq<TypeModel>,
    block: Stat,
    body: TypedStat,
) -> bool {
    exists|e: Checker| #[trigger] in_body_of(e, g, tp) && stat_typing(e, rets, block, body)
}

/// The typed form `t` of the top-level declaration `node`, checked in the
/// state `g` of the global scope: a function keeps its position, name and
/// parameter names, and its body is the typed form of the written one,
/// checked with the parameters in scope (see `stat_typing`).
pub open spec fn func_checked(g: Checker, node: TopLevel, t: TypedTopLevel) -> bool {
    match node {
        TopLevel::TopLevelFunc { loc, islocal, name, params, block, .. } => match t {
            TypedTopLevel::Func { loc: l, islocal: il, name: n, params: tp, rettypes: tr, body } => {
                &&& l == loc
                &&& il == islocal
                &&& n@ == name@
                &&& tp@.len() <= params@.len()
                &&& forall|i: int| 0 <= i < tp@.len() ==> (#[trigger] tp@[i]).0@ == params@[i].name@
                &&& body_checked(g, tp@, models(tr@), block, *body)
            },
            _ => false,
        },
        _ => !(t is Func),
    }
}

/// Every checked declaration `typed[k]` comes from the declaration
/// `program[src[k]]` with its name, and a checked function from a function
/// checked as `func_checked` states, all in the same global state `g`.
pub open spec fn all_checked(g: Checker, typed: Seq<TypedTopLevel>, program: Seq<TopLevel>, src: Seq<int>) -> bool {
    &&& src.len() == typed.len()
    &&& forall|k: int|
        #![trigger typed[k]]
        #![trigger src[k]]
        0 <= k < typed.len() ==> 0 <= src[k] && src[k] < program.len() && declares(
            program[src[k]],
            typed_name(typed[k]),
        ) && func_checked(g, program[src[k]], typed[k])
}

/// Adding a checked declaration keeps `all_checked`.
proof fn lemma_all_checked_push(
    g: Checker,
    typed: Seq<TypedTopLevel>,
    program: Seq<TopLevel>,
    src: Seq<int>,
    t: TypedTopLevel,
    i: int,
)
    requires
        all_checked(g, typed, program, src),
        0 <= i < program.len(),
        declares(program[i], typed_name(t)),
        func_checked(g, program[i], t),
    ensures
        all_checked(g, typed.push(t), program, src.push(i)),
{
    let typed2 = typed.push(t);
    let src2 = src.push(i);
    assert forall|k: int|
        #![trigger typed2[k]]
        #![trigger src2[k]]
        0 <= k < typed2.len() implies 0 <= src2[k] && src2[k] < program.len() && declares(
            program[src2[k]],
            typed_name(typed2[k]),
        ) && func_checked(g, program[src2[k]], typed2[k]) by {
        if k < typed.len() {
            assert(typed2[k] == typed[k]);
            assert(src2[k] == src[k]);
        }
    }
}

/// The checked declarations `typed` of `program` are as `all_checked`
/// states, for some global state without enclosing loops.
pub open spec fn checked_from(typed: Seq<TypedTopLevel>, program: Seq<TopLevel>) -> bool {
    exists|g: Checker, src: Seq<int>| g.loop_depth == 0 && #[trigger] all_checked(g, typed, program, src)
}

/// `func_checked` reads only the scopes, records, modules and loop nesting
/// of the global state.
proof fn lemma_func_checked_frame(g1: Checker, g2: Checker, node: TopLevel, t: TypedTopLevel)
    requires
        func_checked(g1, node, t),
        g1.st.entries@ == g2.st.entries@,
        g1.records == g2.records,
        g1.modules == g2.modules,
        g1.loop_depth == g2.loop_depth,
    ensures
        func_checked(g2, node, t),
{
    match node {
        TopLevel::TopLevelFunc { block, .. } => match t {
            TypedTopLevel::Func { params: tp, rettypes: tr, body, .. } => {
                let e = choose|e: Checker| #[trigger] in_body_of(e, g1, tp@) && stat_typing(e, models(tr@), block, *body);
                assert(in_body_of(e, g2, tp@));
                assert(body_checked(g2, tp@, models(tr@), block, *body));
            },
            _ => {},
        },
        _ => {},
    }
}

/// Some checked top-level declaration of `typed` is the function `name`.
pub open spec fn has_func(typed: Seq<TypedTopLevel>, name: Seq<char>) -> bool {
    exists|k: int| 0 <= k < typed.len() && #[trigger] typed[k] is Func && typed[k]->Func_name@ == name
}

/// Adding a declaration keeps the functions already there.
proof fn lemma_has_func_push(typed: Seq<TypedTopLevel>, x: TypedTopLevel, name: Seq<char>)
    requires
        has_func(typed, name),
    ensures
        has_func(typed.push(x), name),
{
    let k = choose|k: int| 0 <= k < typed.len() && #[trigger] typed[k] is Func && typed[k]->Func_name@ == name;
    assert(typed.push(x)[k] == typed[k]);
}

/// `node` declares a function, record or `foreign function` named `n`.
pub open spec fn declares(node: TopLevel, n: Seq<char>) -> bool {
    match node {
        TopLevel::TopLevelFunc { name, .. } => name@ == n,
        TopLevel::TopLevelRecord { name, .. } => name@ == n,
        TopLevel::TopLevelForeignFunc { name, .. } => name@ == n,
        _ => false,
    }
}

/// Every checked declaration comes from a declaration of `program` with
/// its name.
pub open spec fn all_declared(typed: Seq<TypedTopLevel>, program: Seq<TopLevel>) -> bool {
    forall|k: int|
        0 <= k < typed.len() ==> exists|i: int| 0 <= i < program.len() && declares(program[i], typed_name(#[trigger] typed[k]))
}

/// The name a top-level declaration declares, for those that have one in
/// the typed program.
pub open spec fn typed_name(t: TypedTopLevel) -> Seq<char> {
    match t {
        TypedTopLevel::Func { name, .. } => name@,
        TypedTopLevel::Record { name, .. } => name@,
        TypedTopLevel::ForeignFunc { name, .. } => name@,
    }
}

impl Checker {
    /// Declares a name in the global block during the first pass, keeping
    /// every name that already resolves.
    fn declare_global(&mut self, name: &str, ty: Type, kind: SymbolKind, def_loc: Loc)
        requires
            old(self).wf(),
            old(self).st.resolve(name@) is None,
            kind is Module ==> has_name(old(self).modules@, name@),
        ensures
            final(self).wf(),
            final(self).st.marks@ == old(self).st.marks@,
            is_prefix(old(self).st.entries@, final(self).st.entries@),
            final(self).st.resolve(name@) == Some(Symbol { ty, kind, def_loc }),
            forall|n: Seq<char>| #[trigger] old(self).st.resolve(n) is Some ==> final(self).st.resolve(n) == old(self).st.resolve(n),
            final(self).errors == old(self).errors,
            final(self).records == old(self).records,
            final(self).modules == old(self).modules,
            final(self).loop_depth == old(self).loop_depth,
            final(self).foreigns == old(self).foreigns,
    {
        self.declare(name, ty, kind, def_loc);
        proof {
            assert forall|n: Seq<char>| #[trigger] old(self).st.resolve(n) is Some implies self.st.resolve(n)
                == old(self).st.resolve(n) by {
                assert(n != name@);
                assert(self.st.entries@.last().0@ == name@);
            }
        }
    }

    /// First pass over one top-level declaration: the signature of a
    /// function or `foreign function` (only scalars and `string` cross the C
    /// boundary), an `import`, or the error for what this phase does not
    /// support.  Records were collected before.
    #[verifier::loop_isolation(false)]
    #[verifier::rlimit(60)]
    pub fn collect_signature(&mut self, node: &TopLevel)
        requires
            old(self).wf(),
        ensures
            final(self).wf(),
            final(self).st.marks@ == old(self).st.marks@,
            is_prefix(old(self).st.entries@, final(self).st.entries@),
            forall|n: Seq<char>| #[trigger] old(self).st.resolve(n) is Some ==> final(self).st.resolve(n) == old(self).st.resolve(n),
            final(self).records == old(self).records,
            final(self).loop_depth == old(self).loop_depth,
            final(self).errors@.len() >= old(self).errors@.len(),
            node matches TopLevel::TopLevelFunc { name, .. } ==> final(self).errors@.len() > old(self).errors@.len()
                || resolves_to_function(*final(self), name@),
            node matches TopLevel::TopLevelFunc { loc, name, params, rettypes, .. } ==> signature_registered(
                *old(self),
                *final(self),
                *loc,
                name@,
                params@,
                rettypes@,
            ),
            node matches TopLevel::TopLevelImport { localname, modname, .. } ==> import_registered(
                *old(self),
                *final(self),
                localname@,
                modname@,
            ),
            node matches TopLevel::TopLevelForeignFunc { loc, name, params, rettypes } ==> foreign_registered(
                *old(self),
                *final(self),
                *loc,
                name@,
                params@,
                rettypes@,
            ),
    {
        match node {
            TopLevel::TopLevelFunc { loc, name, params, rettypes, .. } => {
                if self.st.find_symbol(name.as_str()).is_some() {
                    self.error(*loc, cat3("'", name.as_str(), "' já foi declarado antes."));
                    return;
                }
                let param_types = match self.resolve_param_types(params) {
                    Some(t) => t,
                    None => return,
                };
                let ret_types = match self.resolve_types(rettypes) {
                    Some(t) => t,
                    None => return,
                };
                let ghost pts = param_types@;
                let ghost rts = ret_types@;
                let fn_ty = Type::Function { params: param_types, rettypes: ret_types };
                proof { lemma_function_model(*old(self), pts, rts, params@, rettypes@, fn_ty); }
                let shown = fn_ty.copy();
                self.declare_global(name.as_str(), fn_ty, SymbolKind::Global, *loc);
                self.record_use(*loc, *loc, name.as_str(), &shown);
            },
            TopLevel::TopLevelVar { loc, .. } => {
                self.error(
                    *loc,
                    String::from_str("declaração de variável no nível de topo não é suportada nesta fase."),
                );
            },
            TopLevel::TopLevelRecord { .. } => {},
            TopLevel::TopLevelImport { loc, localname, modname } => {
                if self.st.find_symbol(localname.as_str()).is_some() || find_named(
                    &self.modules,
                    localname.as_str(),
                ).is_some() {
                    self.error(*loc, cat3("'", localname.as_str(), "' já foi declarado antes."));
                    return;
                }
                match lookup_module(modname.as_str()) {
                    Some(capability) => {
                        let ghost prev = self.modules@;
                        proof { assert(is_table_capability(capability)); }
                        self.modules.push((localname.clone(), capability));
                        proof {
                            assert(has_name(self.modules@, localname@)) by {
                                assert(self.modules@[self.modules@.len() - 1].0@ == localname@);
                            }
                            assert forall|i: int|
                                0 <= i < self.st.entries@.len() && (#[trigger] self.st.entries@[i]).1.kind is Module
                                implies has_name(self.modules@, self.st.entries@[i].0@) by {
                                let k = choose|k: int| 0 <= k < prev.len() && prev[k].0@ == self.st.entries@[i].0@;
                                assert(self.modules@[k] == prev[k]);
                            }
                        }
                        self.declare_global(
                            localname.as_str(),
                            Type::Invalid,
                            SymbolKind::Module { name: modname.clone() },
                            Loc { line: 0, col: 0 },
                        );
                        proof { assert(self.modules@.drop_last() =~= prev); }
                    },
                    None => {
                        let names = available_module_names();
                        let ghost all = spec_capabilities().map_values(|c: crate::capabilities::CapabilityModel| c.titan_name);
                        let mut available = String::new();
                        let mut i: usize = 0;
                        while i < names.len()
                            invariant
                                i <= names@.len(),
                                names@.len() == all.len(),
                                forall|k: int| 0 <= k < names@.len() ==> #[trigger] names@[k]@ == all[k],
                                available@ == joined_names(all, i as int),
                            decreases names@.len() - i,
                        {
                            if i > 0 {
                                available.append(", ");
                            }
                            available.append(names[i]);
                            i += 1;
                        }
                        let mut msg = cat3("capability '", modname.as_str(), "' não existe; disponíveis: ");
                        msg.append(available.as_str());
                        msg.append(".");
                        self.error(*loc, msg);
                    },
                }
            },
            TopLevel::TopLevelForeignImport { loc, .. } => {
                self.error(*loc, String::from_str("`foreign import` não é suportado nesta fase."));
            },
            TopLevel::TopLevelForeignFunc { loc, name, params, rettypes } => {
                if self.st.find_symbol(name.as_str()).is_some() {
                    self.error(*loc, cat3("'", name.as_str(), "' já foi declarado antes."));
                    return;
                }
                let param_types = match self.resolve_param_types(params) {
                    Some(t) => t,
                    None => return,
                };
                let ret_types = match self.resolve_types(rettypes) {
                    Some(t) => t,
                    None => return,
                };
                let ghost pts = param_types@;
                let ghost rts = ret_types@;
                proof {
                    assert forall|i: int| 0 <= i < params@.len() implies (#[trigger] params@[i]).ty is Some
                        && spec_resolve_type(old(self).records@, old(self).modules@, params@[i].ty->Some_0) == Some(pts[i].model()) by {
                        assert(param_resolves(old(self).records@, old(self).modules@, params@[i], pts[i].model()));
                    }
                    assert forall|i: int| 0 <= i < rettypes@.len() implies (#[trigger] spec_resolve_type(
                        old(self).records@,
                        old(self).modules@,
                        rettypes@[i],
                    )) == Some(rts[i].model()) by {
                        assert(spec_resolve_type(old(self).records@, old(self).modules@, rettypes@[i]) == Some(rts[i].model()));
                    }
                }
                let mut ok = true;
                let mut i: usize = 0;
                while i < params.len() && i < param_types.len()
                    invariant
                        self.wf(),
                        old(self).same_scope(*self),
                        self.errors@.len() >= old(self).errors@.len(),
                        param_types@ == pts,
                        pts.len() == params@.len(),
                        i <= params@.len(),
                        ok ==> self.errors == old(self).errors,
                        !ok ==> self.errors@.len() > old(self).errors@.len(),
                        ok == forall|j: int| 0 <= j < i ==> spec_crosses_ffi(#[trigger] pts[j].model()),
                    decreases params@.len() - i,
                {
                    let mut onde = cat3("o parâmetro '", params[i].name.as_str(), "' de `foreign function ");
                    onde.append(name.as_str());
                    onde.append("`");
                    if !self.check_foreign_boundary_type(params[i].loc, &param_types[i], onde.as_str()) {
                        ok = false;
                    }
                    i += 1;
                }
                proof {
                    assert((forall|j: int| 0 <= j < params@.len() ==> spec_crosses_ffi(#[trigger] pts[j].model()))
                        == (forall|j: int| 0 <= j < params@.len() ==> spec_crosses_ffi(
                        spec_resolve_type(old(self).records@, old(self).modules@, (#[trigger] params@[j]).ty->Some_0)->Some_0,
                    ))) by {
                        if forall|j: int| 0 <= j < params@.len() ==> spec_crosses_ffi(#[trigger] pts[j].model()) {
                            assert forall|j: int| 0 <= j < params@.len() implies spec_crosses_ffi(
                                spec_resolve_type(old(self).records@, old(self).modules@, (#[trigger] params@[j]).ty->Some_0)->Some_0,
                            ) by {
                                assert(spec_crosses_ffi(pts[j].model()));
                            }
                        }
                        if forall|j: int| 0 <= j < params@.len() ==> spec_crosses_ffi(
                            spec_resolve_type(old(self).records@, old(self).modules@, (#[trigger] params@[j]).ty->Some_0)->Some_0,
                        ) {
                            assert forall|j: int| 0 <= j < params@.len() implies spec_crosses_ffi(#[trigger] pts[j].model()) by {
                                assert(params@[j].ty is Some);
                            }
                        }
                    }
                }
                if ret_types.len() > 1 {
                    let msg = cat3(
                        "`foreign function ",
                        name.as_str(),
                        "` não pode ter mais de um retorno: a fronteira C devolve um valor só.",
                    );
                    self.error(*loc, msg);
                    ok = false;
                } else if ret_types.len() == 1 && !matches!(ret_types[0], Type::Nil) {
                    let onde = cat3("o retorno de `foreign function ", name.as_str(), "`");
                    if !self.check_foreign_boundary_type(*loc, &ret_types[0], onde.as_str()) {
                        ok = false;
                    }
                }
                proof {
                    if rts.len() == 1 {
                        assert(spec_resolve_type(old(self).records@, old(self).modules@, rettypes@[0]) == Some(rts[0].model()));
                        assert((rts[0].model() is Nil) == (rts[0] is Nil));
                    }
                    assert(ok == crosses_boundary(*old(self), params@, rettypes@));
                    assert(ok ==> self.errors == old(self).errors);
                    assert(!ok ==> self.errors@.len() > old(self).errors@.len());
                    assert(self.st == old(self).st);
                }
                if !ok {
                    return;
                }
                let fn_ty = Type::Function { params: param_types, rettypes: ret_types };
                proof { lemma_function_model(*old(self), pts, rts, params@, rettypes@, fn_ty); }
                let shown = fn_ty.copy();
                self.declare_global(name.as_str(), fn_ty, SymbolKind::Global, *loc);
                self.foreigns.push(name.clone());
                proof { assert(self.foreigns@.drop_last() =~= old(self).foreigns@); }
                self.record_use(*loc, *loc, name.as_str(), &shown);
            },
            TopLevel::TopLevelMethod { loc, .. } => {
                self.error(*loc, String::from_str("métodos não são suportados nesta fase."));
            },
            TopLevel::TopLevelStatic { loc, .. } => {
                self.error(*loc, String::from_str("métodos não são suportados nesta fase."));
            },
        }
    }

    /// Reports a program without `main(args: {string}): integer`, at the
    /// first `main` if there is one.
    pub fn check_has_main(&mut self, program: &Vec<TopLevel>)
        ensures
            old(self).same_scope(*final(self)),
            final(self).uses == old(self).uses,
            (exists|i: int| 0 <= i < program@.len() && is_valid_main(#[trigger] program@[i]))
                ==> final(self).errors == old(self).errors,
            !(exists|i: int| 0 <= i < program@.len() && is_valid_main(#[trigger] program@[i]))
                ==> final(self).errors@.len() == old(self).errors@.len() + 1,
            !(exists|i: int| 0 <= i < program@.len() && is_valid_main(#[trigger] program@[i]))
                ==> errors_view(final(self).errors@) == errors_view(old(self).errors@).push(
                ("função 'main' precisa ter a assinatura main(args: {string}): integer."@, main_error_loc(program@)),
            ),
    {
        let mut i: usize = 0;
        while i < program.len()
            invariant
                i <= program@.len(),
                forall|j: int| 0 <= j < i ==> !is_valid_main(#[trigger] program@[j]),
            decreases program@.len() - i,
        {
            let valid = match &program[i] {
                TopLevel::TopLevelFunc { name, params, rettypes, .. } => {
                    str_eq(name.as_str(), "main") && params.len() == 1 && match &params[0].ty {
                        Some(ast::Type::TypeArray { subtype, .. }) => matches!(**subtype, ast::Type::TypeString { .. }),
                        _ => false,
                    } && rettypes.len() == 1 && matches!(rettypes[0], ast::Type::TypeInteger { .. })
                },
                _ => false,
            };
            if valid {
                return;
            }
            i += 1;
        }
        let mut loc = Loc { line: 1, col: 1 };
        let mut k: usize = 0;
        proof { reveal_strlit("main"); }
        while k < program.len()
            invariant_except_break
                k <= program@.len(),
                loc == (Loc { line: 1, col: 1 }),
                forall|j: int| 0 <= j < k ==> !names_main(#[trigger] program@[j]),
            ensures
                loc == main_error_loc(program@),
            decreases program@.len() - k,
        {
            match &program[k] {
                TopLevel::TopLevelFunc { name, loc: l, .. } => {
                    if str_eq(name.as_str(), "main") {
                        loc = *l;
                        proof {
                            assert(is_first_main(program@, k as int));
                            let c = choose|c: int| is_first_main(program@, c);
                            assert(c == k) by {
                                if c < k {
                                    assert(!names_main(program@[c]));
                                }
                                if c > k {
                                    assert(names_main(program@[k as int]));
                                }
                            }
                        }
                        break;
                    }
                },
                _ => {},
            }
            k += 1;
        }
        let msg = String::from_str("função 'main' precisa ter a assinatura main(args: {string}): integer.");
        proof { reveal_strlit("função 'main' precisa ter a assinatura main(args: {string}): integer."); }
        self.error(loc, msg);
    }
}

impl Checker {
    /// Second pass over one top-level declaration: checks a function's body
    /// against its signature (the parameters in a block of their own) and
    /// marks its reassigned locals; reuses what the first pass resolved for
    /// records and `foreign function`s.  Anything else has no typed form.
    #[verifier::loop_isolation(false)]
    pub fn check_toplevel(&mut self, node: &TopLevel) -> (r: Option<TypedTopLevel>)
        requires
            old(self).wf(),
        ensures
            final(self).wf(),
            final(self).st.entries@ == old(self).st.entries@,
            final(self).st.marks@ == old(self).st.marks@,
            final(self).records == old(self).records,
            final(self).modules == old(self).modules,
            final(self).loop_depth == old(self).loop_depth,
            final(self).foreigns == old(self).foreigns,
            final(self).errors@.len() >= old(self).errors@.len(),
            node matches TopLevel::TopLevelFunc { name, .. } ==> (resolves_to_function(*old(self), name@)
                && r is None ==> final(self).errors@.len() > old(self).errors@.len()),
            r matches Some(t) ==> func_checked(*old(self), *node, t),
            r matches Some(t) ==> match *node {
                TopLevel::TopLevelFunc { name, .. } => t matches TypedTopLevel::Func { name: n, body, .. }
                    && n@ == name@ && mutability_ok(*body, final(self).assigned@),
                TopLevel::TopLevelRecord { name, .. } => t is Record && typed_name(t) == name@,
                TopLevel::TopLevelForeignFunc { name, .. } => t is ForeignFunc && typed_name(t) == name@,
                _ => false,
            },
    {
        match node {
            TopLevel::TopLevelFunc { loc, islocal, name, params, block, .. } => {
                let signature = match self.st.find_symbol(name.as_str()) {
                    Some(s) => match &s.ty {
                        Type::Function { params: ps, rettypes: rs } => Some((copy_types(ps), copy_types(rs))),
                        _ => None,
                    },
                    None => None,
                };
                let (param_types, ret_types) = match signature {
                    Some(x) => x,
                    None => return None,
                };
                let n = if params.len() < param_types.len() {
                    params.len()
                } else {
                    param_types.len()
                };
                let ghost e0 = self.st.entries@;
                self.enter_block();
                let mut i: usize = 0;
                while i < n
                    invariant
                        i <= n,
                        n <= params@.len(),
                        n <= param_types@.len(),
                        self.wf(),
                        self.st.marks@ == old(self).st.marks@.push(e0.len() as usize),
                        self.st.marks@.last() as int == e0.len(),
                        is_prefix(e0, self.st.entries@),
                        self.records == old(self).records,
                        self.modules == old(self).modules,
                        self.loop_depth == old(self).loop_depth,
                        self.foreigns == old(self).foreigns,
                        self.errors@.len() >= old(self).errors@.len(),
                        self.st.entries@.len() == e0.len() + i,
                        forall|j: int| 0 <= j < e0.len() ==> #[trigger] self.st.entries@[j] == e0[j],
                        forall|k: int|
                            0 <= k < i ==> self.st.entries@[e0.len() + k].0@ == (#[trigger] params@[k]).name@
                                && self.st.entries@[e0.len() + k].1.ty.model() == param_types@[k].model()
                                && self.st.entries@[e0.len() + k].1.kind is Param,
                    decreases n - i,
                {
                    let ghost before = self.st.entries@;
                    let ty = param_types[i].copy();
                    self.declare(params[i].name.as_str(), param_types[i].copy(), SymbolKind::Param, params[i].loc);
                    proof {
                        lemma_prefix_trans(e0, before, self.st.entries@);
                        assert forall|j: int| 0 <= j < e0.len() implies #[trigger] self.st.entries@[j] == e0[j] by {
                            assert(self.st.entries@[j] == self.st.entries@.drop_last()[j]);
                        }
                        assert forall|k: int| 0 <= k < i implies self.st.entries@[e0.len() + k].0@ == (
                        #[trigger] params@[k]).name@ && self.st.entries@[e0.len() + k].1.ty.model()
                            == param_types@[k].model() && self.st.entries@[e0.len() + k].1.kind is Param by {
                            assert(self.st.entries@[e0.len() + k] == self.st.entries@.drop_last()[e0.len() + k]);
                        }
                    }
                    self.record_use(params[i].loc, params[i].loc, params[i].name.as_str(), &ty);
                    i += 1;
                }
                let ghost e1 = self.st.entries@;
                let ghost in_body = *self;
                let body = self.check_stat(block, &ret_types);
                proof { lemma_prefix_trans(e0, e1, self.st.entries@); }
                self.close_scope(*loc);
                assert(self.st.entries@ =~= e0);
                assert(self.st.marks@ =~= old(self).st.marks@);
                let body = body?;
                let ghost checked_body = body;
                let body = fixup_mutability(body, &self.assigned);
                proof {
                    lemma_stat_typing_same_but_mutability(in_body, models(ret_types@), *block, checked_body, body);
                }
                let mut named: Vec<(String, Type)> = Vec::new();
                let mut i: usize = 0;
                while i < n
                    invariant
                        i <= n,
                        n <= params@.len(),
                        n <= param_types@.len(),
                        named@.len() == i,
                        forall|k: int|
                            0 <= k < i ==> (#[trigger] named@[k]).0@ == params@[k].name@ && named@[k].1.model()
                                == param_types@[k].model(),
                    decreases n - i,
                {
                    named.push((params[i].name.clone(), param_types[i].copy()));
                    i += 1;
                }
                proof {
                    assert(in_body_of(in_body, *old(self), named@));
                }
                Some(
                    TypedTopLevel::Func {
                        loc: *loc,
                        islocal: *islocal,
                        name: name.clone(),
                        params: named,
                        rettypes: ret_types,
                        body: Box::new(body),
                    },
                )
            },
            TopLevel::TopLevelRecord { loc, name, .. } => {
                let k = find_named(&self.records, name.as_str())?;
                match &self.records[k].1 {
                    Type::Record { fields, .. } => Some(
                        TypedTopLevel::Record { loc: *loc, name: name.clone(), fields: crate::types::copy_fields(fields) },
                    ),
                    _ => None,
                }
            },
            TopLevel::TopLevelForeignFunc { loc, name, params, .. } => {
                if !contains_str(&self.foreigns, name.as_str()) {
                    return None;
                }
                let signature = match self.st.find_symbol(name.as_str()) {
                    Some(s) => match &s.ty {
                        Type::Function { params: ps, rettypes: rs } => Some((copy_types(ps), copy_types(rs))),
                        _ => None,
                    },
                    None => None,
                };
                let (param_types, ret_types) = match signature {
                    Some(x) => x,
                    None => return None,
                };
                let mut named: Vec<(String, Type)> = Vec::new();
                let mut i: usize = 0;
                while i < params.len() && i < param_types.len()
                    invariant
                        i <= params@.len(),
                    decreases params@.len() - i,
                {
                    named.push((params[i].name.clone(), param_types[i].copy()));
                    i += 1;
                }
                Some(TypedTopLevel::ForeignFunc { loc: *loc, name: name.clone(), params: named, rettypes: ret_types })
            },
            _ => None,
        }
    }
}

/// Both passes over a program: the checker's final state (errors, uses,
/// scopes) and the typed declarations.  Without errors, every function of
/// the program has a typed form and `main` has its required signature.
#[verifier::loop_isolation(false)]
pub fn run(program: &Vec<TopLevel>) -> (r: (Checker, TypedProgram))
    ensures
        r.0.errors@.len() == 0 ==> forall|i: int|
            0 <= i < program@.len() && (#[trigger] program@[i]) is TopLevelFunc ==> has_func(
                r.1@,
                program@[i]->TopLevelFunc_name@,
            ),
        r.0.errors@.len() == 0 ==> exists|i: int| 0 <= i < program@.len() && is_valid_main(#[trigger] program@[i]),
        all_declared(r.1@, program@),
        checked_from(r.1@, program@),
        has_cycle(record_graph(program@)) ==> r.0.errors@.len() > 0,
{
    let mut checker = Checker::new();
    checker.collect_records(program);
    let mut i: usize = 0;
    while i < program.len()
        invariant
            i <= program@.len(),
            checker.wf(),
            checker.st.depth() == 1,
            checker.loop_depth == 0,
            has_cycle(record_graph(program@)) ==> checker.errors@.len() > 0,
            forall|j: int|
                0 <= j < i && (#[trigger] program@[j]) is TopLevelFunc ==> checker.errors@.len() > 0
                    || resolves_to_function(checker, program@[j]->TopLevelFunc_name@),
        decreases program@.len() - i,
    {
        let ghost before = checker;
        checker.collect_signature(&program[i]);
        proof {
            assert forall|j: int|
                0 <= j < i + 1 && (#[trigger] program@[j]) is TopLevelFunc implies checker.errors@.len() > 0
                    || resolves_to_function(checker, program@[j]->TopLevelFunc_name@) by {
                if j < i && before.errors@.len() == 0 {
                    let n = program@[j]->TopLevelFunc_name@;
                    assert(before.st.resolve(n) is Some);
                }
            }
        }
        i += 1;
    }
    checker.check_has_main(program);
    let ghost e_after_main = checker.errors@.len();
    let ghost global = checker;
    let ghost mut src: Seq<int> = Seq::empty();
    let mut typed: Vec<TypedTopLevel> = Vec::new();
    let mut i: usize = 0;
    while i < program.len()
        invariant
            i <= program@.len(),
            checker.wf(),
            checker.st.depth() == 1,
            checker.errors@.len() >= e_after_main,
            has_cycle(record_graph(program@)) ==> e_after_main > 0,
            all_declared(typed@, program@),
            all_checked(global, typed@, program@, src),
            global.loop_depth == 0,
            checker.st.entries@ == global.st.entries@,
            checker.records == global.records,
            checker.modules == global.modules,
            checker.loop_depth == global.loop_depth,
            forall|j: int|
                0 <= j < program@.len() && (#[trigger] program@[j]) is TopLevelFunc ==> checker.errors@.len() > 0
                    || resolves_to_function(checker, program@[j]->TopLevelFunc_name@),
            forall|j: int|
                0 <= j < i && (#[trigger] program@[j]) is TopLevelFunc ==> checker.errors@.len() > 0
                    || has_func(typed@, program@[j]->TopLevelFunc_name@),
        decreases program@.len() - i,
    {
        let ghost before = checker;
        let ghost typed_before = typed@;
        let r = checker.check_toplevel(&program[i]);
        assert(checker.st == before.st || checker.st.entries@ == before.st.entries@);
        match r {
            Some(t) => {
                proof {
                    assert(declares(program@[i as int], typed_name(t)));
                }
                typed.push(t);
                proof {
                    assert forall|k: int| 0 <= k < typed@.len() implies exists|j: int|
                        0 <= j < program@.len() && declares(program@[j], typed_name(#[trigger] typed@[k])) by {
                        if k < typed_before.len() {
                            assert(typed@[k] == typed_before[k]);
                        } else {
                            assert(declares(program@[i as int], typed_name(typed@[k])));
                        }
                    }
                    lemma_func_checked_frame(before, global, program@[i as int], typed@.last());
                    lemma_all_checked_push(global, typed_before, program@, src, typed@.last(), i as int);
                    assert(typed@ == typed_before.push(typed@.last()));
                    src = src.push(i as int);
                }
            },
            None => {},
        }
        proof {
            assert forall|j: int|
                0 <= j < program@.len() && (#[trigger] program@[j]) is TopLevelFunc implies checker.errors@.len() > 0
                    || resolves_to_function(checker, program@[j]->TopLevelFunc_name@) by {
                assert(checker.st.resolve(program@[j]->TopLevelFunc_name@) == before.st.resolve(program@[j]->TopLevelFunc_name@));
            }
            assert forall|j: int|
                0 <= j < i + 1 && (#[trigger] program@[j]) is TopLevelFunc implies checker.errors@.len() > 0
                    || has_func(typed@, program@[j]->TopLevelFunc_name@) by {
                if checker.errors@.len() == 0 {
                    if j < i {
                        if typed@.len() > typed_before.len() {
                            lemma_has_func_push(typed_before, typed@.last(), program@[j]->TopLevelFunc_name@);
                            assert(typed@ == typed_before.push(typed@.last()));
                        }
                    } else {
                        let k = typed@.len() - 1;
                        assert(typed@[k] is Func);
                    }
                }
            }
        }
        i += 1;
    }
    proof {
        assert(all_checked(global, typed@, program@, src));
        assert(checked_from(typed@, program@));
    }
    let symbols = checker.visible_symbols();
    let end = checker.last_loc;
    checker.scopes.push(ScopeSnapshot { start: Loc { line: 1, col: 1 }, end, symbols });
    (checker, typed)
}

/// Checks a whole program.  The result is `Ok` exactly when no error was
/// reported, and then every function of the program has its typed form and
/// `main` has the signature `main(args: {string}): integer`; an `Err`
/// carries at least one error.
pub fn check(program: &Vec<TopLevel>) -> (r: Result<CheckedProgram, Vec<CheckError>>)
    ensures
        r matches Err(es) ==> es@.len() > 0,
        has_cycle(record_graph(program@)) ==> r is Err,
        r matches Ok(cp) ==> forall|i: int|
            0 <= i < program@.len() && (#[trigger] program@[i]) is TopLevelFunc ==> has_func(
                cp.program@,
                program@[i]->TopLevelFunc_name@,
            ),
        r is Ok ==> exists|i: int| 0 <= i < program@.len() && is_valid_main(#[trigger] program@[i]),
        r matches Ok(cp) ==> all_declared(cp.program@, program@),
        r matches Ok(cp) ==> checked_from(cp.program@, program@),
{
    let (checker, typed_program) = run(program);
    if checker.errors.len() == 0 {
        Ok(CheckedProgram { program: typed_program, uses: checker.uses, scopes: checker.scopes })
    } else {
        Err(checker.errors)
    }
}

/// The same analysis as `check`, returning the typed declarations and the
/// side indexes even when the program has errors (an editor completes
/// members of a buffer that does not check yet).
pub fn check_partial(program: &Vec<TopLevel>) -> (r: CheckedProgram)
    ensures
        all_declared(r.program@, program@),
        checked_from(r.program@, program@),
{
    let (checker, typed_program) = run(program);
    CheckedProgram { program: typed_program, uses: checker.uses, scopes: checker.scopes }
}

/// The module named by an `import` declaration, if it is one.
pub open spec fn import_modname(node: TopLevel) -> Option<Seq<char>> {
    match node {
        TopLevel::TopLevelImport { modname, .. } => Some(modname@),
        _ => None,
    }
}

/// `node` imports a module of the capability table.
pub open spec fn is_table_import(node: TopLevel) -> bool {
    match import_modname(node) {
        Some(m) => exists|k: int| 0 <= k < spec_capabilities().len() && spec_capabilities()[k].titan_name == m,
        None => false,
    }
}

/// Each module of `out` is imported by some declaration of `program`.
pub open spec fn all_imported(out: Seq<Capability>, program: Seq<TopLevel>) -> bool {
    forall|k: int|
        0 <= k < out.len() ==> is_table_capability(#[trigger] out[k]) && exists|j: int|
            0 <= j < program.len() && import_modname(#[trigger] program[j]) == Some(out[k].titan_name@)
}

/// No module occurs twice in `out`.
pub open spec fn distinct_modules(out: Seq<Capability>) -> bool {
    forall|a: int, b: int| 0 <= a < b < out.len() ==> out[a].titan_name@ != out[b].titan_name@
}

/// `name` is one of `seen`.
pub open spec fn seen_has(seen: Seq<String>, name: Seq<char>) -> bool {
    exists|s: int| 0 <= s < seen.len() && seen[s]@ == name
}

/// `name` is the name of a module of `out`.
pub open spec fn out_has(out: Seq<Capability>, name: Seq<char>) -> bool {
    exists|k: int| 0 <= k < out.len() && out[k].titan_name@ == name
}

/// `name` names a module of the capability table.
pub open spec fn in_table(name: Seq<char>) -> bool {
    exists|k: int| 0 <= k < spec_capabilities().len() && spec_capabilities()[k].titan_name == name
}

/// The capability modules that `import` brings in, in order of first
/// import, each once; an import of a module that does not exist brings
/// nothing.
pub fn imported_capabilities(program: &Vec<TopLevel>) -> (r: Vec<Capability>)
    ensures
        all_imported(r@, program@),
        distinct_modules(r@),
        forall|i: int|
            0 <= i < program@.len() && is_table_import(#[trigger] program@[i]) ==> out_has(
                r@,
                import_modname(program@[i])->Some_0,
            ),
{
    let mut seen: Vec<String> = Vec::new();
    let mut out: Vec<Capability> = Vec::new();
    let mut i: usize = 0;
    while i < program.len()
        invariant
            i <= program@.len(),
            all_imported(out@, program@),
            distinct_modules(out@),
            forall|k: int| 0 <= k < out@.len() ==> seen_has(seen@, #[trigger] out@[k].titan_name@),
            forall|s: int| 0 <= s < seen@.len() && in_table(#[trigger] seen@[s]@) ==> out_has(out@, seen@[s]@),
            forall|j: int|
                0 <= j < i && (#[trigger] import_modname(program@[j])) is Some ==> seen_has(
                    seen@,
                    import_modname(program@[j])->Some_0,
                ),
        decreases program@.len() - i,
    {
        let ghost seen_before = seen@;
        let ghost out_before = out@;
        match &program[i] {
            TopLevel::TopLevelImport { modname, .. } => {
                if !contains_str(&seen, modname.as_str()) {
                    seen.push(modname.clone());
                    proof {
                        assert(seen@[seen@.len() - 1]@ == modname@);
                        assert forall|nm: Seq<char>| seen_has(seen_before, nm) implies seen_has(seen@, nm) by {
                            let s0 = choose|s: int| 0 <= s < seen_before.len() && seen_before[s]@ == nm;
                            assert(seen@[s0] == seen_before[s0]);
                        }
                        assert(seen_has(seen@, modname@));
                    }
                    match lookup_module(modname.as_str()) {
                        Some(c) => {
                            proof {
                                assert(is_table_capability(c));
                                assert(c.titan_name@ == modname@);
                                assert(import_modname(program@[i as int]) == Some(c.titan_name@));
                            }
                            out.push(c);
                            proof {
                                assert(out@[out@.len() - 1] == c);
                                assert forall|nm: Seq<char>| out_has(out_before, nm) implies out_has(out@, nm) by {
                                    let k0 = choose|k: int| 0 <= k < out_before.len() && out_before[k].titan_name@ == nm;
                                    assert(out@[k0] == out_before[k0]);
                                }
                                assert(out_has(out@, modname@));
                                assert forall|k: int| 0 <= k < out@.len() implies is_table_capability(#[trigger] out@[k]) && exists|j: int|
                                    0 <= j < program@.len() && import_modname(#[trigger] program@[j]) == Some(out@[k].titan_name@) by {
                                    if k < out_before.len() {
                                        assert(out@[k] == out_before[k]);
                                    }
                                }
                                assert forall|a: int, b: int| 0 <= a < b < out@.len() implies out@[a].titan_name@ != out@[b].titan_name@ by {
                                    assert(out@[a] == out_before[a]);
                                    if b < out_before.len() {
                                        assert(out@[b] == out_before[b]);
                                    } else {
                                        assert(seen_has(seen_before, out_before[a].titan_name@));
                                    }
                                }
                                assert forall|k: int| 0 <= k < out@.len() implies seen_has(seen@, #[trigger] out@[k].titan_name@) by {
                                    if k < out_before.len() {
                                        assert(out@[k] == out_before[k]);
                                        assert(seen_has(seen_before, out_before[k].titan_name@));
                                    }
                                }
                                assert forall|s: int| 0 <= s < seen@.len() && in_table(#[trigger] seen@[s]@) implies out_has(out@, seen@[s]@) by {
                                    if s < seen_before.len() {
                                        assert(seen@[s] == seen_before[s]);
                                        assert(out_has(out_before, seen_before[s]@));
                                    }
                                }
                            }
                        },
                        None => {
                            proof {
                                assert forall|k: int| 0 <= k < out@.len() implies seen_has(seen@, #[trigger] out@[k].titan_name@) by {
                                    assert(seen_has(seen_before, out_before[k].titan_name@));
                                }
                                assert forall|s: int| 0 <= s < seen@.len() && in_table(#[trigger] seen@[s]@) implies out_has(out@, seen@[s]@) by {
                                    if s < seen_before.len() {
                                        assert(seen@[s] == seen_before[s]);
                                    } else {
                                        assert(!in_table(modname@));
                                    }
                                }
                            }
                        },
                    }
                    proof {
                        assert forall|j: int| 0 <= j < i + 1 && (#[trigger] import_modname(program@[j])) is Some implies seen_has(
                            seen@,
                            import_modname(program@[j])->Some_0,
                        ) by {
                            if j < i {
                                assert(seen_has(seen_before, import_modname(program@[j])->Some_0));
                            }
                        }
                    }
                }
            },
            _ => {},
        }
        i += 1;
    }
    proof {
        assert forall|i: int| 0 <= i < program@.len() && is_table_import(#[trigger] program@[i]) implies out_has(
            out@,
            import_modname(program@[i])->Some_0,
        ) by {
            let m = import_modname(program@[i])->Some_0;
            assert(seen_has(seen@, m));
            let s0 = choose|s: int| 0 <= s < seen@.len() && seen@[s]@ == m;
            assert(in_table(seen@[s0]@));
        }
    }
    out
}

} // verus!
